//! # Boot information
//!
//! The memory map that the boot loader hands to the kernel, and the choice
//! of the region the kernel puts its heap in.
use vstd::prelude::*;

verus! {

/// A region of physical memory.
#[derive(Clone, Copy, Debug, PartialEq, Eq, Structural)]
pub struct MemoryRegion {
    pub base: usize,
    pub size: usize,
    pub kind: MemoryRegionKind,
}

/// What a region of physical memory is used for.
#[derive(Clone, Copy, Debug, PartialEq, Eq, Structural)]
#[non_exhaustive]
pub enum MemoryRegionKind {
    Free,
    Bootloader,
    Uefi(u32),
}

/// The region for the kernel heap: the largest free region of `regions`,
/// the last of them when several are equally large; `None` when no region
/// is free.
pub fn heap_region(regions: &[MemoryRegion]) -> (r: Option<MemoryRegion>)
    ensures
        r is Some <==> exists|i: int| 0 <= i < regions@.len() && regions@[i].kind == MemoryRegionKind::Free,
        r matches Some(x) ==> exists|i: int|
            0 <= i < regions@.len() && regions@[i] == x && x.kind == MemoryRegionKind::Free && (forall|j: int|
                0 <= j < regions@.len() && #[trigger] regions@[j].kind == MemoryRegionKind::Free ==> regions@[j].size
                    <= x.size) && (forall|j: int|
                i < j < regions@.len() && #[trigger] regions@[j].kind == MemoryRegionKind::Free ==> regions@[j].size
                    < x.size),
{
    let mut best: Option<usize> = None;
    let mut k: usize = 0;
    while k < regions.len()
        invariant
            k <= regions@.len(),
            match best {
                None => forall|j: int| 0 <= j < k ==> regions@[j].kind != MemoryRegionKind::Free,
                Some(i) => {
                    &&& i < k
                    &&& regions@[i as int].kind == MemoryRegionKind::Free
                    &&& forall|j: int|
                        0 <= j < k && #[trigger] regions@[j].kind == MemoryRegionKind::Free ==> regions@[j].size
                            <= regions@[i as int].size
                    &&& forall|j: int|
                        i < j < k && #[trigger] regions@[j].kind == MemoryRegionKind::Free ==> regions@[j].size
                            < regions@[i as int].size
                },
            },
        decreases regions@.len() - k,
    {
        let region = regions[k];
        if region.kind == MemoryRegionKind::Free {
            match best {
                None => {
                    best = Some(k);
                },
                Some(i) => {
                    if regions[i].size <= region.size {
                        best = Some(k);
                    }
                },
            }
        }
        k += 1;
    }
    match best {
        Some(i) => Some(regions[i]),
        None => None,
    }
}

} // verus!
