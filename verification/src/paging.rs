//! Per-process page tables.
//!
//! A `PageTableContext` pairs the value that goes into CR3 (top-level frame
//! and flags) with the table of mappings reachable from that root. Cloning a
//! context allocates a fresh top-level frame and carries the same mappings;
//! in the machine the children then share lower-level tables until they
//! diverge. Writing the pair into CR3 is privileged and happens outside
//! this crate.

use vstd::prelude::*;

use crate::memory::{BootFrameAllocator, PageMap};
use crate::memory::page_aligned;

verus! {

/// What CR3 holds: the physical frame of the top-level page table and the
/// CR3 flag bits.
#[derive(Clone, Copy, PartialEq, Eq, Structural, Debug)]
pub struct Cr3RegValue {
    pub addr: u64,
    pub flags: u64,
}

impl Cr3RegValue {
    pub fn new(addr: u64, flags: u64) -> (r: Cr3RegValue)
        ensures
            r.addr == addr,
            r.flags == flags,
    {
        Cr3RegValue { addr, flags }
    }
}

/// A page table root together with the mappings installed under it.
pub struct PageTableContext {
    pub reg: Cr3RegValue,
    pub map: PageMap,
}

impl PageTableContext {
    pub open spec fn wf(self) -> bool {
        &&& page_aligned(self.reg.addr)
        &&& self.map.wf()
    }

    /// Wrap an existing root (for the kernel, the table the bootloader
    /// built) together with its known mappings.
    pub fn new(reg: Cr3RegValue, map: PageMap) -> (r: PageTableContext)
        ensures
            r.reg == reg,
            r.map == map,
    {
        PageTableContext { reg, map }
    }

    /// Clone the top-level table into a freshly allocated frame: the new
    /// context starts with exactly the same mappings and empty CR3 flags.
    pub fn clone_l4(&self, frame_allocator: &mut BootFrameAllocator) -> (r: PageTableContext)
        requires
            self.wf(),
            old(frame_allocator).wf(),
            old(frame_allocator).frames@.len() > 0,
        ensures
            final(frame_allocator).wf(),
            final(frame_allocator).frames@ == old(frame_allocator).frames@.drop_last(),
            r.reg.addr == old(frame_allocator).frames@.last(),
            r.reg.flags == 0,
            r.map.entries@ == self.map.entries@,
            r.wf(),
    {
        let frame = match frame_allocator.allocate_frame() {
            Some(f) => f,
            None => {
                // unreachable: a free frame was required
                proof {
                    assert(false);
                }
                0
            },
        };
        let mut entries: Vec<(u64, u64)> = Vec::new();
        let n = self.map.entries.len();
        let mut i: usize = 0;
        while i < n
            invariant
                n == self.map.entries@.len(),
                i <= n,
                entries@ == self.map.entries@.take(i as int),
            decreases n - i,
        {
            let e = self.map.entries[i];
            entries.push(e);
            proof {
                assert(self.map.entries@.take(i + 1) =~= self.map.entries@.take(i as int).push(e));
            }
            i = i + 1;
        }
        proof {
            assert(self.map.entries@.take(n as int) =~= self.map.entries@);
        }
        PageTableContext { reg: Cr3RegValue { addr: frame, flags: 0 }, map: PageMap { entries } }
    }
}

} // verus!
