//! # Process management
//!
//! The messages exchanged between the kernel and the shell, the fixed-size
//! queue that carries them, and the decoding of the kernel's answers.
use vstd::prelude::*;
use vstd::string::StringSliceAdditionalSpecFns;

verus! {

#[derive(Clone, Copy, Debug, Eq, PartialEq, Structural)]
pub enum TranslateAddressError {
    PermissionDenied,
    AddressNotMapped,
}

impl TranslateAddressError {
    /// A description of the error.
    pub fn as_str(&self) -> (s: &'static str)
        ensures
            s@ == (match self {
                TranslateAddressError::PermissionDenied => "permission denied"@,
                TranslateAddressError::AddressNotMapped => "address is not mapped"@,
            }),
    {
        match self {
            TranslateAddressError::PermissionDenied => "permission denied",
            TranslateAddressError::AddressNotMapped => "address is not mapped",
        }
    }
}

/// The outcome of an address lookup from the value the kernel returns:
/// a physical address, or -1 (permission denied) or -2 (not mapped). The
/// kernel returns no other negative value.
pub fn translate_result(num: isize) -> (r: Result<usize, TranslateAddressError>)
    requires
        num >= -2,
    ensures
        num >= 0 ==> r == Ok::<usize, TranslateAddressError>(num as usize),
        num == -1 ==> r == Err::<usize, TranslateAddressError>(TranslateAddressError::PermissionDenied),
        num == -2 ==> r == Err::<usize, TranslateAddressError>(TranslateAddressError::AddressNotMapped),
{
    if num < 0 {
        if num == -1 {
            Err(TranslateAddressError::PermissionDenied)
        } else {
            Err(TranslateAddressError::AddressNotMapped)
        }
    } else {
        Ok(num as usize)
    }
}

/// The policy used to determine how resources are granted to a process.
#[derive(Clone, Copy, Debug, Default, Eq, Hash, Ord, PartialEq, PartialOrd)]
pub enum AccessPolicy {
    /// The process has access to all resources.
    ///
    /// No checks are performed when it requests access to a resource. The
    /// resource is granted without blocking the process.
    All,
    /// The process has normal access to resources.
    ///
    /// When it requests access to some resource, it will be blocked until
    /// access is granted (or stopped if it is denied).
    #[default]
    Normal,
}

/// The execution priority of a process (the levels 0, 32 and 255, lowest
/// first).
#[derive(Clone, Copy, Debug, Eq, Hash, Ord, PartialEq, PartialOrd)]
pub enum Priority {
    NoPriority,
    Normal,
    Idle,
}

/// A message sent from the kernel to the shell.
#[derive(Clone, Copy, Debug)]
pub enum ShellInput {
    /// A process wants to access some module section.
    AccessModuleRequest {
        addr: usize,
        process_id: u64,
        process_name: SizedString<32>,
        module_name: SizedString<32>,
        section_name: SizedString<32>,
    },
}

/// A message sent from the shell to the kernel.
#[derive(Clone, Copy, Debug)]
pub enum ShellOutput {
    ExitProcess { code: u64 },
    AllowModuleAccess { addr: usize, process_id: u64 },
}

impl ShellOutput {
    /// Whether this message lets the blocked process run again: every message
    /// does.
    pub fn unblocks_process(&self) -> (b: bool)
        ensures
            b,
    {
        match self {
            Self::ExitProcess { .. } | Self::AllowModuleAccess { .. } => true,
        }
    }
}

/// A string of at most `SIZE` bytes, padded with NUL bytes.
#[derive(Clone, Copy, Debug)]
pub struct SizedString<const SIZE: usize> {
    pub bytes: [u8; SIZE],
}

impl<const SIZE: usize> SizedString<SIZE> {
    /// The first `SIZE` bytes of `string`, padded with NUL bytes.
    pub fn new_truncate(string: &str) -> (r: Self)
        ensures
            r.bytes@.len() == SIZE,
            forall|i: int|
                0 <= i < SIZE ==> r.bytes@[i] == if i < string.spec_bytes().len() {
                    string.spec_bytes()[i]
                } else {
                    0u8
                },
    {
        let mut bytes = [0u8; SIZE];
        let src = string.as_bytes();
        let len = if src.len() < SIZE {
            src.len()
        } else {
            SIZE
        };
        let mut i: usize = 0;
        while i < len
            invariant
                len <= SIZE,
                len <= src@.len(),
                src@ == string.spec_bytes(),
                i <= len,
                bytes@.len() == SIZE,
                forall|j: int| 0 <= j < i ==> bytes@[j] == src@[j],
                forall|j: int| i <= j < SIZE ==> bytes@[j] == 0u8,
            decreases len - i,
        {
            bytes[i] = src[i];
            i += 1;
        }
        Self { bytes }
    }
}

/// The slot that comes `offset` places after `start` on a ring of `size`
/// slots (`start < size`, `offset <= size`).
pub open spec fn ring_slot(start: int, offset: int, size: int) -> int {
    if start + offset >= size {
        start + offset - size
    } else {
        start + offset
    }
}

/// A ring of `SIZE` slots with a cursor where the next element is written and
/// a cursor where the next element is read.
///
/// `push` always writes: once `SIZE` elements wait, the next push overwrites
/// the oldest one in place.
pub struct SizedQueue<T, const SIZE: usize> {
    inner: Vec<Option<T>>,
    push_cursor: usize,
    pop_cursor: usize,
}

impl<T, const SIZE: usize> SizedQueue<T, SIZE> {
    /// The contents of the slots.
    pub closed spec fn slots(&self) -> Seq<Option<T>> {
        self.inner@
    }

    /// The slot the next `push` writes.
    pub closed spec fn push_at(&self) -> int {
        self.push_cursor as int
    }

    /// The slot the next `pop` reads.
    pub closed spec fn pop_at(&self) -> int {
        self.pop_cursor as int
    }

    /// There are `SIZE` slots and both cursors point at one of them.
    pub open spec fn wf(&self) -> bool {
        &&& self.slots().len() == SIZE
        &&& 0 <= self.push_at()
        &&& 0 <= self.pop_at()
        &&& SIZE > 0 ==> self.push_at() < SIZE && self.pop_at() < SIZE
    }

    /// The queue holds `items`, oldest first: they fill the slots from the
    /// read cursor on, the write cursor follows the last of them, and every
    /// other slot is empty.
    pub open spec fn holds(&self, items: Seq<T>) -> bool {
        &&& self.wf()
        &&& items.len() <= SIZE
        &&& self.push_at() == ring_slot(self.pop_at(), items.len() as int, SIZE as int)
        &&& forall|i: int|
            0 <= i < SIZE ==> #[trigger] self.slots()[ring_slot(self.pop_at(), i, SIZE as int)]
                == if i < items.len() {
                Some(items[i])
            } else {
                None
            }
    }

    /// An empty queue: every slot empty, both cursors at the first slot.
    pub fn new() -> (q: Self)
        ensures
            q.wf(),
            q.slots() == Seq::new(SIZE as nat, |i: int| None::<T>),
            q.push_at() == 0,
            q.pop_at() == 0,
            q.holds(Seq::empty()),
    {
        let mut inner: Vec<Option<T>> = Vec::new();
        let mut i: usize = 0;
        while i < SIZE
            invariant
                i <= SIZE,
                inner@.len() == i,
                forall|j: int| 0 <= j < i ==> inner@[j] == None::<T>,
            decreases SIZE - i,
        {
            inner.push(None);
            i += 1;
        }
        let q = Self { inner, push_cursor: 0, pop_cursor: 0 };
        assert(q.slots() =~= Seq::new(SIZE as nat, |i: int| None::<T>));
        q
    }

    /// Writes `element` at the write cursor, whatever the slot held, and
    /// moves the write cursor to the next slot.
    pub fn push(&mut self, element: T)
        requires
            SIZE > 0,
            old(self).wf(),
        ensures
            final(self).wf(),
            final(self).slots() == old(self).slots().update(old(self).push_at(), Some(element)),
            final(self).push_at() == ring_slot(old(self).push_at(), 1, SIZE as int),
            final(self).pop_at() == old(self).pop_at(),
    {
        let at = self.push_cursor;
        self.inner.set(at, Some(element));
        let mut next = at + 1;
        if next >= SIZE {
            next = 0;
        }
        self.push_cursor = next;
    }

    /// Takes the element at the read cursor, leaving its slot empty; when
    /// there was one, moves the read cursor to the next slot.
    pub fn pop(&mut self) -> (r: Option<T>)
        requires
            SIZE > 0,
            old(self).wf(),
        ensures
            final(self).wf(),
            r == old(self).slots()[old(self).pop_at()],
            final(self).slots() == old(self).slots().update(old(self).pop_at(), None),
            final(self).push_at() == old(self).push_at(),
            final(self).pop_at() == if r is Some {
                ring_slot(old(self).pop_at(), 1, SIZE as int)
            } else {
                old(self).pop_at()
            },
    {
        let at = self.pop_cursor;
        self.inner.push(None);
        let element = self.inner.swap_remove(at);
        if element.is_some() {
            let mut next = at + 1;
            if next >= SIZE {
                next = 0;
            }
            self.pop_cursor = next;
        }
        element
    }
}

/// A push onto a queue that holds fewer than `SIZE` items gives a queue that
/// holds the same items with the new one behind them.
pub proof fn lemma_push_appends<T, const SIZE: usize>(
    before: SizedQueue<T, SIZE>,
    after: SizedQueue<T, SIZE>,
    items: Seq<T>,
    element: T,
)
    requires
        SIZE > 0,
        before.holds(items),
        items.len() < SIZE,
        after.wf(),
        after.slots() == before.slots().update(before.push_at(), Some(element)),
        after.push_at() == ring_slot(before.push_at(), 1, SIZE as int),
        after.pop_at() == before.pop_at(),
    ensures
        after.holds(items.push(element)),
{
    let n = items.len() as int;
    let size = SIZE as int;
    let new_items = items.push(element);
    assert forall|i: int| 0 <= i < SIZE implies #[trigger] after.slots()[ring_slot(after.pop_at(), i, size)]
        == if i < new_items.len() {
        Some(new_items[i])
    } else {
        None
    } by {
        let k = ring_slot(before.pop_at(), i, size);
        assert(before.slots()[k] == if i < n {
            Some(items[i])
        } else {
            None
        });
        if i == n {
            assert(k == before.push_at());
        } else {
            assert(k != before.push_at());
        }
    }
}

/// A pop from a queue that holds `items` returns the oldest of them (nothing
/// when there is none) and leaves a queue that holds the rest in order.
pub proof fn lemma_pop_takes_front<T, const SIZE: usize>(
    before: SizedQueue<T, SIZE>,
    after: SizedQueue<T, SIZE>,
    items: Seq<T>,
    popped: Option<T>,
)
    requires
        SIZE > 0,
        before.holds(items),
        after.wf(),
        popped == before.slots()[before.pop_at()],
        after.slots() == before.slots().update(before.pop_at(), None),
        after.push_at() == before.push_at(),
        after.pop_at() == if popped is Some {
            ring_slot(before.pop_at(), 1, SIZE as int)
        } else {
            before.pop_at()
        },
    ensures
        popped == if items.len() > 0 {
            Some(items[0])
        } else {
            None::<T>
        },
        items.len() > 0 ==> after.holds(items.drop_first()),
        items.len() == 0 ==> after.holds(items),
{
    let size = SIZE as int;
    let n = items.len() as int;
    assert(ring_slot(before.pop_at(), 0, size) == before.pop_at());
    assert(before.slots()[ring_slot(before.pop_at(), 0, size)] == if 0 < n {
        Some(items[0])
    } else {
        None
    });
    if n > 0 {
        let rest = items.drop_first();
        assert forall|i: int| 0 <= i < SIZE implies #[trigger] after.slots()[ring_slot(after.pop_at(), i, size)]
            == if i < rest.len() {
            Some(rest[i])
        } else {
            None
        } by {
            if i == size - 1 {
                assert(ring_slot(after.pop_at(), i, size) == before.pop_at());
            } else {
                let k = ring_slot(before.pop_at(), i + 1, size);
                assert(ring_slot(after.pop_at(), i, size) == k);
                assert(before.slots()[k] == if i + 1 < n {
                    Some(items[i + 1])
                } else {
                    None
                });
            }
        }
    } else {
        assert forall|i: int| 0 <= i < SIZE implies #[trigger] after.slots()[ring_slot(after.pop_at(), i, size)]
            == if i < items.len() {
            Some(items[i])
        } else {
            None
        } by {
            let k = ring_slot(before.pop_at(), i, size);
            assert(before.slots()[k] == None::<T>);
        }
    }
}

/// `after` is what `push(element)` leaves of `before`.
pub open spec fn push_step<T, const SIZE: usize>(before: SizedQueue<T, SIZE>, after: SizedQueue<T, SIZE>, element: T) -> bool {
    &&& after.wf()
    &&& after.slots() == before.slots().update(before.push_at(), Some(element))
    &&& after.push_at() == ring_slot(before.push_at(), 1, SIZE as int)
    &&& after.pop_at() == before.pop_at()
}

/// `after` is what `pop()` leaves of `before`, and `popped` what it returned.
pub open spec fn pop_step<T, const SIZE: usize>(before: SizedQueue<T, SIZE>, after: SizedQueue<T, SIZE>, popped: Option<T>) -> bool {
    &&& after.wf()
    &&& popped == before.slots()[before.pop_at()]
    &&& after.slots() == before.slots().update(before.pop_at(), None)
    &&& after.push_at() == before.push_at()
    &&& after.pop_at() == if popped is Some {
        ring_slot(before.pop_at(), 1, SIZE as int)
    } else {
        before.pop_at()
    }
}

/// Pushing from state `i` on keeps the queue holding what was pushed.
proof fn lemma_pushes<T, const SIZE: usize>(states: Seq<SizedQueue<T, SIZE>>, pushed: Seq<T>, i: int)
    requires
        SIZE > 0,
        pushed.len() <= SIZE,
        states.len() > pushed.len(),
        0 <= i <= pushed.len(),
        states[0].holds(Seq::empty()),
        forall|k: int| 0 <= k < pushed.len() ==> push_step(#[trigger] states[k], states[k + 1], pushed[k]),
    ensures
        states[i].holds(pushed.take(i)),
    decreases i,
{
    if i == 0 {
        assert(pushed.take(0) =~= Seq::<T>::empty());
    } else {
        lemma_pushes(states, pushed, i - 1);
        assert(push_step(states[i - 1], states[i], pushed[i - 1]));
        lemma_push_appends(states[i - 1], states[i], pushed.take(i - 1), pushed[i - 1]);
        assert(pushed.take(i - 1).push(pushed[i - 1]) =~= pushed.take(i));
    }
}

/// Popping from state `n` on takes the pushed elements in order.
proof fn lemma_pops<T, const SIZE: usize>(states: Seq<SizedQueue<T, SIZE>>, pushed: Seq<T>, popped: Seq<Option<T>>, j: int)
    requires
        SIZE > 0,
        states.len() > pushed.len() + j,
        popped.len() >= j,
        0 <= j <= pushed.len(),
        states[pushed.len() as int].holds(pushed),
        forall|k: int| 0 <= k < j ==> pop_step(#[trigger] states[pushed.len() + k], states[pushed.len() + k + 1], popped[k]),
    ensures
        states[pushed.len() + j].holds(pushed.skip(j)),
        forall|k: int| 0 <= k < j ==> popped[k] == Some(#[trigger] pushed[k]),
    decreases j,
{
    let n = pushed.len() as int;
    if j == 0 {
        assert(pushed.skip(0) =~= pushed);
    } else {
        lemma_pops(states, pushed, popped, j - 1);
        assert(pop_step(states[n + j - 1], states[n + j], popped[j - 1]));
        lemma_pop_takes_front(states[n + j - 1], states[n + j], pushed.skip(j - 1), popped[j - 1]);
        assert(pushed.skip(j - 1).drop_first() =~= pushed.skip(j));
    }
}

/// First in, first out: after an empty queue has had `pushed` pushed onto
/// it (no more than it has slots), as many pops return the pushed elements
/// in the order they were pushed, and one more pop returns nothing and
/// leaves the queue as it was. `states` are the queue's states one after
/// the other.
pub proof fn lemma_fifo<T, const SIZE: usize>(states: Seq<SizedQueue<T, SIZE>>, pushed: Seq<T>, popped: Seq<Option<T>>)
    requires
        SIZE > 0,
        pushed.len() <= SIZE,
        states.len() == 2 * pushed.len() + 2,
        popped.len() == pushed.len() + 1,
        states[0].holds(Seq::empty()),
        forall|k: int| 0 <= k < pushed.len() ==> push_step(#[trigger] states[k], states[k + 1], pushed[k]),
        forall|k: int| 0 <= k <= pushed.len() ==> pop_step(#[trigger] states[pushed.len() + k], states[pushed.len() + k + 1], popped[k]),
    ensures
        forall|k: int| 0 <= k < pushed.len() ==> popped[k] == Some(#[trigger] pushed[k]),
        popped[pushed.len() as int] is None,
        states[2 * pushed.len() as int + 1].slots() == states[2 * pushed.len() as int].slots(),
        states[2 * pushed.len() as int + 1].push_at() == states[2 * pushed.len() as int].push_at(),
        states[2 * pushed.len() as int + 1].pop_at() == states[2 * pushed.len() as int].pop_at(),
        states[2 * pushed.len() as int + 1].holds(Seq::empty()),
{
    let n = pushed.len() as int;
    lemma_pushes(states, pushed, n);
    assert(pushed.take(n) =~= pushed);
    lemma_pops(states, pushed, popped, n);
    assert(pushed.skip(n) =~= Seq::<T>::empty());
    let last = states[2 * n];
    let after = states[2 * n + 1];
    assert(pop_step(states[n + n], states[n + n + 1], popped[n]));
    lemma_pop_takes_front(last, after, Seq::<T>::empty(), popped[n]);
    assert(after.slots() =~= last.slots());
}

} // verus!
