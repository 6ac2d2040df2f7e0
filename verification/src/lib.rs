//! A bounded, stack-like container of colored elements, together with a
//! `pour` operation that moves the top element from one container to
//! another, guarded by capacity and emptiness checks.

use vstd::prelude::*;

verus! {

/// Fixed capacity shared by every container.
pub const MAX_ITEMS: usize = 3;

/// A single colored item. Immutable once created; owned by the container
/// that holds it.
#[derive(Debug, PartialEq)]
pub struct Element {
    pub color: String,
}

impl View for Element {
    type V = Seq<char>;

    /// An element is abstractly its color.
    closed spec fn view(&self) -> Seq<char> {
        self.color@
    }
}

/// A bounded stack of elements: created empty, grown and shrunk at the
/// back, never longer than `MAX_ITEMS`.
#[derive(Debug, PartialEq)]
pub struct Container {
    elements: Vec<Element>,
}

impl View for Container {
    type V = Seq<Seq<char>>;

    /// A container is abstractly the sequence of its elements' colors,
    /// bottom of the stack first.
    closed spec fn view(&self) -> Seq<Seq<char>> {
        self.elements@.map(|i: int, e: Element| e@)
    }
}

/// The advisory conditions an operation can report. Each is non-fatal:
/// the operation that reports one leaves every container unchanged.
#[derive(Debug, PartialEq, Eq, Clone, Copy)]
pub enum Condition {
    /// `add_element` was called on a full container; the element was discarded.
    ContainerFull,
    /// `pour_at` was asked to pour a container into itself.
    PourIntoSelf,
    /// A pour was asked to take from an empty container.
    SourceEmpty,
    /// A pour was asked to give to a full container.
    DestinationFull,
}

/// What adding an element of color `color` does to a container holding
/// `stack`: appended at the back when there is room, discarded otherwise.
pub open spec fn added(stack: Seq<Seq<char>>, color: Seq<char>) -> Seq<Seq<char>> {
    if stack.len() < MAX_ITEMS {
        stack.push(color)
    } else {
        stack
    }
}

impl Container {
    /// Capacity invariant: a container never holds more than `MAX_ITEMS`
    /// elements. Established by `new` and preserved by every operation.
    pub open spec fn wf(&self) -> bool {
        self@.len() <= MAX_ITEMS
    }

    /// Creates an empty container.
    pub fn new() -> (c: Container)
        ensures
            c@ == Seq::<Seq<char>>::empty(),
            c.wf(),
    {
        Container { elements: Vec::with_capacity(MAX_ITEMS) }
    }

    /// A container is full exactly when it holds `MAX_ITEMS` elements.
    pub fn is_full(&self) -> (full: bool)
        ensures
            full == (self@.len() == MAX_ITEMS),
    {
        self.elements.len() == MAX_ITEMS
    }

    /// A container is empty exactly when it holds no element.
    pub fn is_empty(&self) -> (empty: bool)
        ensures
            empty == (self@.len() == 0),
    {
        self.elements.is_empty()
    }

    /// The number of elements currently held.
    pub fn len(&self) -> (n: usize)
        ensures
            n == self@.len(),
    {
        self.elements.len()
    }

    /// Appends `value` at the back when the container is not full; a full
    /// container reports `ContainerFull` and discards the element,
    /// leaving its contents unchanged.
    pub fn add_element(&mut self, value: Element) -> (outcome: Option<Condition>)
        requires
            old(self).wf(),
        ensures
            final(self).wf(),
            final(self)@ == added(old(self)@, value@),
            outcome == (if old(self)@.len() >= MAX_ITEMS {
                Some(Condition::ContainerFull)
            } else {
                None::<Condition>
            }),
    {
        if self.is_full() {
            return Some(Condition::ContainerFull);
        }
        self.elements.push(value);
        proof {
            assert(self@ =~= old(self)@.push(value@));
        }
        None
    }

    /// The color of the element at position `i`, counted from the bottom
    /// of the stack.
    pub fn color_at(&self, i: usize) -> (color: &String)
        requires
            i < self@.len(),
        ensures
            color@ == self@[i as int],
    {
        &self.elements[i].color
    }
}

/// What pouring does to the pair (source, destination): when the source is
/// non-empty and the destination has room, the source's top element moves
/// onto the destination; on every other path both stay as they were.
pub open spec fn poured(src: Seq<Seq<char>>, dst: Seq<Seq<char>>) -> (Seq<Seq<char>>, Seq<
    Seq<char>,
>) {
    if src.len() == 0 || dst.len() >= MAX_ITEMS {
        (src, dst)
    } else {
        (src.drop_last(), dst.push(src.last()))
    }
}

/// Moves the most-recently-added element of `from` onto `to`. An empty
/// source or a full destination is reported and leaves both containers
/// unchanged; the element count across the two is conserved on every path.
///
/// The two containers are necessarily distinct: exclusive references
/// cannot alias, so no run-time identity check is needed here (`pour_at`
/// keeps one for containers picked out of a collection by index).
pub fn pour(from: &mut Container, to: &mut Container) -> (outcome: Option<Condition>)
    requires
        old(from).wf(),
        old(to).wf(),
    ensures
        final(from).wf(),
        final(to).wf(),
        (final(from)@, final(to)@) == poured(old(from)@, old(to)@),
        outcome == (if old(from)@.len() == 0 {
            Some(Condition::SourceEmpty)
        } else if old(to)@.len() >= MAX_ITEMS {
            Some(Condition::DestinationFull)
        } else {
            None::<Condition>
        }),
{
    if from.is_empty() {
        return Some(Condition::SourceEmpty);
    }
    match from.elements.pop() {
        Some(element) => {
            if to.is_full() {
                // Undo the removal: the destination has no room.
                from.elements.push(element);
                proof {
                    assert(from@ =~= old(from)@);
                }
                return Some(Condition::DestinationFull);
            }
            to.elements.push(element);
            proof {
                assert(from@ =~= old(from)@.drop_last());
                assert(to@ =~= old(to)@.push(old(from)@.last()));
            }
            None
        },
        None => unreached(),
    }
}

/// Pours between two containers picked out of a collection by index.
/// When `src` and `dst` name the identical container, the self-pour is
/// reported and nothing changes, whatever the container holds; otherwise
/// the call behaves exactly as `pour` on the two containers, and every
/// other container in the collection is untouched.
pub fn pour_at(containers: &mut Vec<Container>, src: usize, dst: usize) -> (outcome: Option<
    Condition,
>)
    requires
        src < old(containers)@.len(),
        dst < old(containers)@.len(),
        forall|i: int|
            0 <= i < old(containers)@.len() ==> (#[trigger] old(containers)@[i]).wf(),
    ensures
        final(containers)@.len() == old(containers)@.len(),
        forall|i: int|
            0 <= i < final(containers)@.len() ==> (#[trigger] final(containers)@[i]).wf(),
        src == dst ==> final(containers)@ == old(containers)@ && outcome == Some(
            Condition::PourIntoSelf,
        ),
        src != dst ==> (final(containers)@[src as int]@, final(containers)@[dst as int]@)
            == poured(old(containers)@[src as int]@, old(containers)@[dst as int]@),
        src != dst ==> forall|i: int|
            0 <= i < old(containers)@.len() && i != src && i != dst ==> final(containers)@[i]
                == (#[trigger] old(containers)@[i]),
        src != dst ==> outcome == (if old(containers)@[src as int]@.len() == 0 {
            Some(Condition::SourceEmpty)
        } else if old(containers)@[dst as int]@.len() >= MAX_ITEMS {
            Some(Condition::DestinationFull)
        } else {
            None::<Condition>
        }),
{
    if src == dst {
        return Some(Condition::PourIntoSelf);
    }
    if containers[src].is_empty() {
        return Some(Condition::SourceEmpty);
    }
    if containers[dst].is_full() {
        return Some(Condition::DestinationFull);
    }
    match containers[src].elements.pop() {
        Some(element) => {
            containers[dst].elements.push(element);
            proof {
                assert(containers@[src as int]@ =~= old(containers)@[src as int]@.drop_last());
                assert(containers@[dst as int]@ =~= old(containers)@[dst as int]@.push(
                    old(containers)@[src as int]@.last(),
                ));
            }
            None
        },
        None => unreached(),
    }
}

/// Folds a whole sequence of `add` calls, in order, over a container's
/// contents.
pub open spec fn added_all(stack: Seq<Seq<char>>, colors: Seq<Seq<char>>) -> Seq<Seq<char>>
    decreases colors.len(),
{
    if colors.len() == 0 {
        stack
    } else {
        added_all(added(stack, colors[0]), colors.subrange(1, colors.len() as int))
    }
}

/// Law: however many `add` calls are made, in whatever order, a container
/// that starts within capacity stays within capacity, and each call made
/// on a full container leaves it unchanged.
pub proof fn lemma_added_all_bounded(stack: Seq<Seq<char>>, colors: Seq<Seq<char>>)
    requires
        stack.len() <= MAX_ITEMS,
    ensures
        added_all(stack, colors).len() <= MAX_ITEMS,
        forall|color: Seq<char>|
            stack.len() == MAX_ITEMS ==> #[trigger] added(stack, color) == stack,
    decreases colors.len(),
{
    if colors.len() > 0 {
        lemma_added_all_bounded(added(stack, colors[0]), colors.subrange(1, colors.len() as int));
    }
}

/// Law: pouring from an empty source leaves both containers unchanged.
pub proof fn lemma_pour_from_empty(src: Seq<Seq<char>>, dst: Seq<Seq<char>>)
    requires
        src.len() == 0,
    ensures
        poured(src, dst) == (src, dst),
{
}

/// Law: pouring into a full destination leaves both containers unchanged;
/// in particular both lengths stay as they were, the element count is
/// conserved, and the source keeps its top element.
pub proof fn lemma_pour_into_full(src: Seq<Seq<char>>, dst: Seq<Seq<char>>)
    requires
        dst.len() == MAX_ITEMS,
    ensures
        poured(src, dst) == (src, dst),
        poured(src, dst).0.len() == src.len(),
        poured(src, dst).1.len() == dst.len(),
        src.len() > 0 ==> poured(src, dst).0.last() == src.last(),
{
}

/// Law: pouring from a non-empty source into a non-full destination moves
/// exactly the source's top element: the source shortens by one, the
/// destination lengthens by one, and the destination's new top element
/// carries the moved color.
pub proof fn lemma_pour_moves_top(src: Seq<Seq<char>>, dst: Seq<Seq<char>>)
    requires
        src.len() > 0,
        dst.len() < MAX_ITEMS,
    ensures
        poured(src, dst).0 == src.drop_last(),
        poured(src, dst).0.len() == src.len() - 1,
        poured(src, dst).1.len() == dst.len() + 1,
        poured(src, dst).1.last() == src.last(),
{
}

/// Law: the total element count across the two containers is conserved on
/// every path of a pour, the aborted ones included.
pub proof fn lemma_pour_conserves_count(src: Seq<Seq<char>>, dst: Seq<Seq<char>>)
    ensures
        poured(src, dst).0.len() + poured(src, dst).1.len() == src.len() + dst.len(),
{
}

} // verus!
