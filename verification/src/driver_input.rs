//! # Driver input
//!
//! The fixed set of event slots through which a driver receives input. A
//! full set of slots drops its oldest event to make room for a new one.
use vstd::prelude::*;

verus! {

/// The number of event slots of a [`DriverInput`].
pub const DRIVER_INPUT_EVENT_CAPACITY: usize = 16;

/// The events of `slots` that are present, in slot order.
pub open spec fn present<E>(slots: Seq<Option<E>>) -> Seq<E>
    decreases slots.len(),
{
    if slots.len() == 0 {
        Seq::empty()
    } else {
        let rest = present(slots.drop_last());
        match slots.last() {
            Some(e) => rest.push(e),
            None => rest,
        }
    }
}

/// The slots hold `items` in their first `items.len()` places and nothing
/// after them.
pub open spec fn packed<E>(slots: Seq<Option<E>>, items: Seq<E>) -> bool {
    &&& items.len() <= slots.len()
    &&& forall|i: int| 0 <= i < slots.len() ==> #[trigger] slots[i] == if i < items.len() {
        Some(items[i])
    } else {
        None
    }
}

/// The first empty slot of `slots`, if there is one.
pub open spec fn first_empty<E>(slots: Seq<Option<E>>) -> Option<int>
    decreases slots.len(),
{
    if slots.len() == 0 {
        None
    } else if slots[0] is None {
        Some(0)
    } else {
        match first_empty(slots.drop_first()) {
            Some(i) => Some(i + 1),
            None => None,
        }
    }
}

/// The slots after an event is pushed, and the event that had to be dropped
/// for it: the event goes into the first empty slot; when no slot is empty,
/// the event of the first slot is dropped, the others move one slot forward
/// and the new event goes into the last slot.
pub open spec fn pushed<E>(slots: Seq<Option<E>>, event: E) -> (Seq<Option<E>>, Option<E>) {
    match first_empty(slots) {
        Some(i) => (slots.update(i, Some(event)), None),
        None => (slots.drop_first().push(Some(event)), slots[0]),
    }
}

/// The input a driver receives: its id, the bounds it last knew of,
/// [`DRIVER_INPUT_EVENT_CAPACITY`] slots of pending events, and what it
/// rendered.
pub struct DriverInput<B, E, R> {
    pub id: u64,
    pub known_bounds: B,
    pub events: Vec<Option<E>>,
    pub render: R,
}

impl<B, E, R> DriverInput<B, E, R> {
    /// The event slots, in order.
    pub open spec fn slots(&self) -> Seq<Option<E>> {
        self.events@
    }

    /// Id 0, the given bounds, no pending event, and the default render.
    pub fn new(initial_bounds: B) -> (d: Self) where R: Default
        ensures
            d.id == 0,
            d.known_bounds == initial_bounds,
            d.slots() == Seq::new(DRIVER_INPUT_EVENT_CAPACITY as nat, |i: int| None::<E>),
    {
        let mut events: Vec<Option<E>> = Vec::new();
        let mut i: usize = 0;
        while i < DRIVER_INPUT_EVENT_CAPACITY
            invariant
                i <= DRIVER_INPUT_EVENT_CAPACITY,
                events@.len() == i,
                forall|j: int| 0 <= j < i ==> events@[j] == None::<E>,
            decreases DRIVER_INPUT_EVENT_CAPACITY - i,
        {
            events.push(None);
            i += 1;
        }
        let d = Self { id: 0, known_bounds: initial_bounds, events, render: R::default() };
        assert(d.slots() =~= Seq::new(DRIVER_INPUT_EVENT_CAPACITY as nat, |i: int| None::<E>));
        d
    }

    /// Puts `event` into the first empty slot and returns nothing; when no
    /// slot is empty, drops the event of the first slot, moves the others one
    /// slot forward, puts `event` into the last slot and returns the dropped
    /// event.
    pub fn push_event(&mut self, event: E) -> (missed: Option<E>)
        requires
            old(self).slots().len() == DRIVER_INPUT_EVENT_CAPACITY,
        ensures
            final(self).slots().len() == DRIVER_INPUT_EVENT_CAPACITY,
            final(self).id == old(self).id,
            final(self).known_bounds == old(self).known_bounds,
            final(self).render == old(self).render,
            (final(self).slots(), missed) == pushed(old(self).slots(), event),
    {
        let n = self.events.len();
        let mut index: usize = 0;
        while index < n
            invariant_except_break
                n == self.events@.len(),
                index <= n,
                forall|j: int| 0 <= j < index ==> self.events@[j] is Some,
            ensures
                n == self.events@.len(),
                index <= n,
                forall|j: int| 0 <= j < index ==> self.events@[j] is Some,
                index < n ==> self.events@[index as int] is None,
            decreases n - index,
        {
            if self.events[index].is_none() {
                break;
            }
            index += 1;
        }
        proof {
            lemma_first_empty(self.events@, index as int);
        }
        if index < n {
            self.events.set(index, Some(event));
            None
        } else {
            let missed = self.events.remove(0);
            self.events.push(Some(event));
            missed
        }
    }

    /// Takes the pending events, in slot order, leaving every slot empty.
    pub fn drain_events(&mut self) -> (events: Vec<E>)
        ensures
            events@ == present(old(self).slots()),
            final(self).slots() == Seq::new(old(self).slots().len(), |i: int| None::<E>),
            final(self).id == old(self).id,
            final(self).known_bounds == old(self).known_bounds,
            final(self).render == old(self).render,
    {
        let ghost initial = self.events@;
        let n = self.events.len();
        let mut drained: Vec<E> = Vec::new();
        let mut i: usize = 0;
        while i < n
            invariant
                n == initial.len(),
                self.events@.len() == n,
                self.id == old(self).id,
                self.known_bounds == old(self).known_bounds,
                self.render == old(self).render,
                initial == old(self).events@,
                i <= n,
                drained@ == present(initial.take(i as int)),
                forall|j: int| 0 <= j < i ==> self.events@[j] == None::<E>,
                forall|j: int| i <= j < n ==> self.events@[j] == initial[j],
            decreases n - i,
        {
            assert(initial.take(i as int + 1).drop_last() =~= initial.take(i as int));
            self.events.push(None);
            let slot = self.events.swap_remove(i);
            if let Some(e) = slot {
                drained.push(e);
            }
            i += 1;
        }
        assert(initial.take(n as int) =~= initial);
        assert(self.events@ =~= Seq::new(n as nat, |i: int| None::<E>));
        drained
    }
}

/// Slots that hold their events in order, from the first slot on, keep them
/// in order: a new event joins behind them, and when the slots are full the
/// oldest event is the one dropped. Draining gives them back in order.
pub proof fn lemma_events_in_order<E>(slots: Seq<Option<E>>, items: Seq<E>, event: E)
    requires
        slots.len() == DRIVER_INPUT_EVENT_CAPACITY,
        packed(slots, items),
    ensures
        present(slots) == items,
        items.len() < DRIVER_INPUT_EVENT_CAPACITY ==> packed(pushed(slots, event).0, items.push(event))
            && pushed(slots, event).1 is None,
        items.len() == DRIVER_INPUT_EVENT_CAPACITY ==> packed(
            pushed(slots, event).0,
            items.drop_first().push(event),
        ) && pushed(slots, event).1 == Some(items[0]),
{
    lemma_present_packed(slots, items);
    let n = items.len() as int;
    if n < slots.len() {
        lemma_first_empty(slots, n);
        assert(pushed(slots, event).0 == slots.update(n, Some(event)));
        let after = slots.update(n, Some(event));
        let grown = items.push(event);
        assert forall|i: int| 0 <= i < after.len() implies #[trigger] after[i] == if i < grown.len() {
            Some(grown[i])
        } else {
            None
        } by {
            if i != n {
                assert(slots[i] == if i < n { Some(items[i]) } else { None });
            }
        }
    } else {
        assert forall|j: int| 0 <= j < slots.len() implies slots[j] is Some by {
            assert(slots[j] == Some(items[j]));
        }
        lemma_first_empty(slots, slots.len() as int);
        assert(slots[0] == Some(items[0]));
        let after = slots.drop_first().push(Some(event));
        let moved = items.drop_first().push(event);
        assert forall|i: int| 0 <= i < after.len() implies #[trigger] after[i] == if i < moved.len() {
            Some(moved[i])
        } else {
            None
        } by {
            if i + 1 < slots.len() {
                assert(slots[i + 1] == Some(items[i + 1]));
            }
        }
    }
}

/// The events present in packed slots are the events they hold.
proof fn lemma_present_packed<E>(slots: Seq<Option<E>>, items: Seq<E>)
    requires
        packed(slots, items),
    ensures
        present(slots) == items,
    decreases slots.len(),
{
    if slots.len() > 0 {
        let last = slots.len() - 1;
        if items.len() == slots.len() {
            assert(packed(slots.drop_last(), items.drop_last())) by {
                assert forall|i: int| 0 <= i < slots.drop_last().len() implies #[trigger] slots.drop_last()[i]
                    == if i < items.drop_last().len() {
                    Some(items.drop_last()[i])
                } else {
                    None
                } by {
                    assert(slots[i] == Some(items[i]));
                }
            }
            lemma_present_packed(slots.drop_last(), items.drop_last());
            assert(slots[last] == Some(items[last]));
            assert(items.drop_last().push(items[last]) =~= items);
        } else {
            assert(packed(slots.drop_last(), items)) by {
                assert forall|i: int| 0 <= i < slots.drop_last().len() implies #[trigger] slots.drop_last()[i]
                    == if i < items.len() {
                    Some(items[i])
                } else {
                    None
                } by {
                    assert(slots[i] == if i < items.len() { Some(items[i]) } else { None });
                }
            }
            lemma_present_packed(slots.drop_last(), items);
            assert(slots[last] == None::<E>);
        }
    } else {
        assert(items =~= Seq::<E>::empty());
    }
}

/// Where the first empty slot is, as a loop that checks slots in turn
/// finds it.
proof fn lemma_first_empty<E>(slots: Seq<Option<E>>, index: int)
    requires
        0 <= index <= slots.len(),
        forall|j: int| 0 <= j < index ==> slots[j] is Some,
        index < slots.len() ==> slots[index] is None,
    ensures
        first_empty(slots) == if index < slots.len() {
            Some(index)
        } else {
            None::<int>
        },
    decreases slots.len(),
{
    if slots.len() > 0 && index > 0 {
        lemma_first_empty(slots.drop_first(), index - 1);
    }
}

} // verus!
