//! # Paging
//!
//! Hands out the level-4 page-table entries of the address space that the
//! boot loader sets up, first fit, and the virtual addresses they map.
use vstd::prelude::*;

verus! {

/// The number of entries of a page table.
pub const ENTRY_COUNT: usize = 512;

/// The bytes that one level-4 entry maps: 512 GiB.
pub const LEVEL_4_SIZE: u64 = 0x80_0000_0000;

/// Whether entries `start..start + count` of `used` exist and are all free.
pub open spec fn window_free(used: Seq<bool>, start: int, count: int) -> bool {
    &&& 0 <= start
    &&& start + count <= used.len()
    &&& forall|k: int| start <= k < start + count ==> !#[trigger] used[k]
}

/// The first `start` from `from` on such that entries `start..start + count`
/// are all free.
pub open spec fn first_fit_from(used: Seq<bool>, count: int, from: int) -> Option<int>
    decreases used.len() - from,
{
    if from < 0 || from + count > used.len() {
        None
    } else if window_free(used, from, count) {
        Some(from)
    } else {
        first_fit_from(used, count, from + 1)
    }
}

/// The first run of `count` free entries, by where it starts.
pub open spec fn first_fit(used: Seq<bool>, count: int) -> Option<int> {
    first_fit_from(used, count, 0)
}

/// `used` with entries `start..start + count` marked used.
pub open spec fn mark_used(used: Seq<bool>, start: int, count: int) -> Seq<bool> {
    Seq::new(used.len(), |k: int| used[k] || (start <= k < start + count))
}

/// The number of level-4 entries that `len` bytes take up: `len` divided
/// by 512 GiB, rounded up.
pub open spec fn entries_for(len: int) -> int {
    (len + LEVEL_4_SIZE - 1) / (LEVEL_4_SIZE as int)
}

/// The canonical start address of the 1 GiB page at level-4 index `p4` and
/// level-3 index `p3`: the indices in bits 39-47 and 30-38, with bit 47
/// repeated in bits 48-63.
pub open spec fn page_1gib_address(p4: u16, p3: u16) -> int {
    p4 * 0x80_0000_0000 + p3 * 0x4000_0000 + if p4 >= 256 {
        0xFFFF_0000_0000_0000int
    } else {
        0
    }
}

/// `Page::<Size1GiB>::from_page_table_indices_1gib(PageTableIndex::new(p4),
/// PageTableIndex::new(p3)).start_address().as_u64()` of the `x86_64`
/// crate: the indices shifted into place and the address sign-extended
/// from bit 47 (`VirtAddr::new_truncate`). `PageTableIndex::new` panics on
/// an index of 512 or more.
#[verifier::external_body]
fn page_1gib_start(p4: u16, p3: u16) -> (addr: u64)
    requires
        p4 < 512,
        p3 < 512,
    ensures
        addr == page_1gib_address(p4, p3),
{
    x86_64::structures::paging::Page::from_page_table_indices_1gib(
        x86_64::structures::paging::PageTableIndex::new(p4),
        x86_64::structures::paging::PageTableIndex::new(p3),
    ).start_address().as_u64()
}

/// A run that [`first_fit_from`] finds starts at `from` or later, and its
/// entries are free.
pub proof fn lemma_first_fit_bounds(used: Seq<bool>, count: int, from: int)
    ensures
        first_fit_from(used, count, from) matches Some(i) ==> from <= i && window_free(used, i, count),
    decreases used.len() - from,
{
    if !(from < 0 || from + count > used.len()) && !window_free(used, from, count) {
        lemma_first_fit_bounds(used, count, from + 1);
    }
}

/// Which of the 512 level-4 entries are in use.
pub struct PageAllocator {
    level_4_entries: [bool; 512],
}

impl PageAllocator {
    /// Which entries are in use.
    pub closed spec fn used(&self) -> Seq<bool> {
        self.level_4_entries@
    }

    /// An allocator with only the first entry in use (it maps the boot
    /// loader itself).
    pub fn new() -> (a: Self)
        ensures
            a.used().len() == ENTRY_COUNT,
            a.used()[0],
            forall|k: int| 1 <= k < ENTRY_COUNT ==> !a.used()[k],
    {
        let mut level_4_entries = [false; 512];
        level_4_entries[0] = true;
        Self { level_4_entries }
    }

    /// Marks the first run of `count` free entries used and returns the
    /// index of its first entry. There must be such a run (the boot loader
    /// stops otherwise).
    fn get_free_entries(&mut self, count: usize) -> (index: u16)
        requires
            count > 0,
            first_fit(old(self).used(), count as int) is Some,
        ensures
            index == first_fit(old(self).used(), count as int)->0,
            final(self).used() == mark_used(old(self).used(), index as int, count as int),
    {
        let ghost used = self.level_4_entries@;
        proof {
            lemma_first_fit_bounds(used, count as int, 0);
        }
        let mut start: usize = 0;
        let last = ENTRY_COUNT - count;
        loop
            invariant
                used == self.level_4_entries@,
                used.len() == ENTRY_COUNT,
                0 < count <= ENTRY_COUNT,
                last == ENTRY_COUNT - count,
                start <= last,
                first_fit(used, count as int) is Some,
                first_fit(used, count as int) == first_fit_from(used, count as int, start as int),
            ensures
                used == self.level_4_entries@,
                used.len() == ENTRY_COUNT,
                start + count <= ENTRY_COUNT,
                window_free(used, start as int, count as int),
                first_fit(used, count as int) == Some(start as int),
            decreases last - start,
        {
            let mut k: usize = 0;
            let mut free = true;
            while k < count
                invariant
                    used == self.level_4_entries@,
                    used.len() == ENTRY_COUNT,
                    start + count <= ENTRY_COUNT,
                    k <= count,
                    free <==> forall|j: int| start <= j < start + k ==> !used[j],
                decreases count - k,
            {
                if self.level_4_entries[start + k] {
                    free = false;
                }
                k += 1;
            }
            if free {
                break;
            }
            if start == last {
                assert(first_fit_from(used, count as int, start as int + 1) is None);
                assert(false);
            }
            start += 1;
        }
        assert(window_free(used, start as int, count as int));
        let mut i: usize = 0;
        while i < count
            invariant
                used.len() == ENTRY_COUNT,
                start + count <= ENTRY_COUNT,
                i <= count,
                self.level_4_entries@ == mark_used(used, start as int, i as int),
            decreases count - i,
        {
            self.level_4_entries[start + i] = true;
            assert(self.level_4_entries@ =~= mark_used(used, start as int, i as int + 1));
            i += 1;
        }
        start as u16
    }

    /// Marks used the first run of free entries that can map `len` bytes
    /// (512 GiB each) and returns the virtual address where it starts. There
    /// must be such a run (the boot loader stops otherwise).
    pub fn get_free_address(&mut self, len: u64) -> (addr: u64)
        requires
            len > 0,
            len + LEVEL_4_SIZE - 1 <= u64::MAX,
            first_fit(old(self).used(), entries_for(len as int)) is Some,
        ensures
            ({
                let index = first_fit(old(self).used(), entries_for(len as int))->0;
                &&& 0 <= index < 512
                &&& addr == page_1gib_address(index as u16, 0)
                &&& final(self).used() == mark_used(old(self).used(), index, entries_for(len as int))
            }),
    {
        let ghost used = self.used();
        let count = ((len + (LEVEL_4_SIZE - 1)) / LEVEL_4_SIZE) as usize;
        proof {
            lemma_first_fit_bounds(used, count as int, 0);
        }
        let index = self.get_free_entries(count);
        page_1gib_start(index, 0)
    }
}

/// An allocation takes entries that were free, and the next allocation takes
/// none of them: the runs that two allocations in a row hand out do not
/// overlap.
pub proof fn lemma_allocations_disjoint(used: Seq<bool>, first: int, second: int)
    requires
        first > 0,
        second > 0,
        first_fit(used, first) is Some,
        first_fit(mark_used(used, first_fit(used, first)->0, first), second) is Some,
    ensures
        ({
            let i = first_fit(used, first)->0;
            let j = first_fit(mark_used(used, i, first), second)->0;
            &&& window_free(used, i, first)
            &&& window_free(mark_used(used, i, first), j, second)
            &&& (j + second <= i || i + first <= j)
        }),
{
    let i = first_fit(used, first)->0;
    let marked = mark_used(used, i, first);
    lemma_first_fit_bounds(used, first, 0);
    lemma_first_fit_bounds(marked, second, 0);
    let j = first_fit(marked, second)->0;
    if !(j + second <= i || i + first <= j) {
        let k = if i > j { i } else { j };
        assert(marked[k]);
        assert(!marked[k]);
    }
}

} // verus!
