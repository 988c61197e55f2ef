//! Physical frames, page mappings, and the fixed physical-memory window.
//!
//! The machine's MMU state is modelled as a table of 4 KiB page mappings:
//! each entry takes one virtual page base to one physical frame base, present
//! and writable. `map_range` backs fresh pages with allocated frames,
//! `map_physical_memory` installs the window that maps every physical byte
//! `p` at virtual `offset + p`, and a frame allocator hands out 4 KiB frames
//! seeded from the firmware memory map.

use vstd::prelude::*;

verus! {

/// Size of one page / frame in bytes.
pub const PAGE_SIZE: u64 = 4096;

/// Whether `a` sits on a page boundary.
pub open spec fn page_aligned(a: u64) -> bool {
    a % (PAGE_SIZE as u64) == 0
}

/// Base address of the page containing `a`.
pub open spec fn spec_page_base(a: u64) -> u64 {
    (a - (a % (PAGE_SIZE as u64))) as u64
}

/// Base address of the page containing `a`.
pub fn page_base(a: u64) -> (r: u64)
    ensures
        r == spec_page_base(a),
        page_aligned(r),
        r <= a,
{
    a - (a % PAGE_SIZE)
}

/// What kind of memory a firmware descriptor reports.
///
/// `Conventional` is free RAM; `LoaderData` was used by the bootloader and is
/// reclaimable once boot services end; everything else is treated as
/// reserved.
#[derive(Clone, Copy, PartialEq, Eq, Structural, Debug)]
pub enum MemoryKind {
    Conventional,
    LoaderData,
    Reserved,
}

/// One entry of the firmware memory map: `page_count` 4 KiB pages starting
/// at physical `phys_start`.
#[derive(Clone, Copy, PartialEq, Eq, Structural, Debug)]
pub struct MemoryDescriptor {
    pub phys_start: u64,
    pub page_count: u64,
    pub kind: MemoryKind,
    pub attribute: u64,
}

impl MemoryDescriptor {
    /// A descriptor is well formed when it starts on a page boundary and its
    /// pages do not run off the end of the address space.
    pub open spec fn wf(self) -> bool {
        &&& page_aligned(self.phys_start)
        &&& self.phys_start + self.page_count * (PAGE_SIZE as u64) <= u64::MAX
    }

    /// End of the region described (one past the last byte).
    pub open spec fn spec_end(self) -> int {
        self.phys_start + self.page_count * (PAGE_SIZE as u64)
    }
}

/// What the bootloader hands the kernel: the firmware memory map (at most
/// 256 descriptors) and the offset at which all physical memory is mapped.
/// The firmware runtime table travels alongside this record outside the
/// library.
pub struct BootInfo {
    pub memory_map: Vec<MemoryDescriptor>,
    pub physical_memory_offset: u64,
}

impl BootInfo {
    pub open spec fn wf(self) -> bool {
        &&& self.memory_map@.len() <= 256
        &&& forall|i: int| 0 <= i < self.memory_map@.len() ==> (#[trigger] self.memory_map@[i]).wf()
    }
}

/// Translate a physical address through the physical-memory window.
pub fn physical_to_virtual(offset: u64, phys: u64) -> (r: u64)
    requires
        offset + phys <= u64::MAX,
    ensures
        r == offset + phys,
{
    offset + phys
}

/// Largest physical address any descriptor reaches, clamped to at least
/// 4 GiB so the window always covers the IO APIC MMIO region.
pub open spec fn spec_max_phys(mmap: Seq<MemoryDescriptor>) -> int
    decreases mmap.len(),
{
    if mmap.len() == 0 {
        0x1_0000_0000
    } else {
        let rest = spec_max_phys(mmap.drop_last());
        if mmap.last().spec_end() > rest {
            mmap.last().spec_end()
        } else {
            rest
        }
    }
}

/// Upper bound of the physical memory the kernel must map: the end of the
/// highest descriptor, but never less than 4 GiB.
pub fn max_phys_addr(mmap: &Vec<MemoryDescriptor>) -> (r: u64)
    requires
        forall|i: int| 0 <= i < mmap@.len() ==> (#[trigger] mmap@[i]).wf(),
    ensures
        r == spec_max_phys(mmap@),
{
    let mut max: u64 = 0x1_0000_0000;
    let mut i: usize = 0;
    while i < mmap.len()
        invariant
            i <= mmap@.len(),
            forall|j: int| 0 <= j < mmap@.len() ==> (#[trigger] mmap@[j]).wf(),
            max == spec_max_phys(mmap@.take(i as int)),
        decreases mmap@.len() - i,
    {
        let d = mmap[i];
        let end = d.phys_start + d.page_count * PAGE_SIZE;
        if end > max {
            max = end;
        }
        proof {
            assert(mmap@.take(i + 1).drop_last() =~= mmap@.take(i as int));
            assert(mmap@.take(i + 1).last() == mmap@[i as int]);
        }
        i = i + 1;
    }
    proof {
        assert(mmap@.take(mmap@.len() as int) =~= mmap@);
    }
    max
}

/// A half-open range of pages: addresses `[start, end)`, both page-aligned.
#[derive(Clone, Copy, PartialEq, Eq, Structural, Debug)]
pub struct PageRange {
    pub start: u64,
    pub end: u64,
}

impl PageRange {
    pub open spec fn wf(self) -> bool {
        &&& page_aligned(self.start)
        &&& page_aligned(self.end)
        &&& self.start <= self.end
    }

    /// Whether the byte at `addr` lies inside the range.
    pub open spec fn spec_contains(self, addr: u64) -> bool {
        self.start <= addr < self.end
    }

    /// Number of pages in the range.
    pub open spec fn spec_page_count(self) -> int {
        (self.end - self.start) / (PAGE_SIZE as int)
    }
}

/// Why establishing a mapping can fail.
#[derive(Clone, Copy, PartialEq, Eq, Structural, Debug)]
pub enum MapError {
    /// The frame allocator ran out of physical frames.
    FrameAllocationFailed,
    /// Some page in the requested range is already mapped.
    PageAlreadyMapped,
}

/// Allocator of free 4 KiB physical frames, seeded from the firmware memory
/// map; frames are handed out from the back of the list.
pub struct BootFrameAllocator {
    pub frames: Vec<u64>,
}

/// All frame addresses a well-formed descriptor sequence offers: for each
/// free (`Conventional` or `LoaderData`) descriptor, one frame per page.
pub open spec fn spec_frames_of_descriptor(d: MemoryDescriptor) -> Seq<u64> {
    if d.kind == MemoryKind::Reserved {
        Seq::empty()
    } else {
        Seq::new(d.page_count as nat, |i: int| (d.phys_start + i * (PAGE_SIZE as int)) as u64)
    }
}

pub open spec fn spec_frames_of(mmap: Seq<MemoryDescriptor>) -> Seq<u64>
    decreases mmap.len(),
{
    if mmap.len() == 0 {
        Seq::empty()
    } else {
        spec_frames_of(mmap.drop_last()) + spec_frames_of_descriptor(mmap.last())
    }
}

impl BootFrameAllocator {
    /// Every free frame is page-aligned.
    pub open spec fn wf(self) -> bool {
        forall|i: int| 0 <= i < self.frames@.len() ==> page_aligned(#[trigger] self.frames@[i])
    }

    /// An allocator with exactly the given free frames.
    pub fn new(frames: Vec<u64>) -> (r: BootFrameAllocator)
        ensures
            r.frames == frames,
    {
        BootFrameAllocator { frames }
    }

    /// Seed the allocator from the firmware memory map: one frame per page
    /// of every `Conventional` or `LoaderData` descriptor, in map order.
    pub fn from_memory_map(mmap: &Vec<MemoryDescriptor>) -> (r: BootFrameAllocator)
        requires
            forall|i: int| 0 <= i < mmap@.len() ==> (#[trigger] mmap@[i]).wf(),
        ensures
            r.frames@ == spec_frames_of(mmap@),
            r.wf(),
    {
        let mut frames: Vec<u64> = Vec::new();
        let mut i: usize = 0;
        while i < mmap.len()
            invariant
                i <= mmap@.len(),
                forall|j: int| 0 <= j < mmap@.len() ==> (#[trigger] mmap@[j]).wf(),
                frames@ == spec_frames_of(mmap@.take(i as int)),
                forall|k: int| 0 <= k < frames@.len() ==> page_aligned(#[trigger] frames@[k]),
            decreases mmap@.len() - i,
        {
            let d = mmap[i];
            match d.kind {
                MemoryKind::Reserved => {
                    proof {
                        assert(mmap@.take(i + 1).drop_last() =~= mmap@.take(i as int));
                        assert(spec_frames_of_descriptor(mmap@[i as int]) =~= Seq::<u64>::empty());
                        assert(frames@ =~= spec_frames_of(mmap@.take(i + 1)));
                    }
                },
                _ => {
                    proof {
                        assert(spec_frames_of_descriptor(d).take(0) =~= Seq::<u64>::empty());
                        assert(frames@ =~= spec_frames_of(mmap@.take(i as int)) + spec_frames_of_descriptor(d).take(0));
                    }
                    let mut k: u64 = 0;
                    while k < d.page_count
                        invariant
                            0 <= k <= d.page_count,
                            d == mmap@[i as int],
                            i < mmap@.len(),
                            d.wf(),
                            d.kind != MemoryKind::Reserved,
                            frames@ == spec_frames_of(mmap@.take(i as int)) + spec_frames_of_descriptor(d).take(k as int),
                            forall|m: int| 0 <= m < frames@.len() ==> page_aligned(#[trigger] frames@[m]),
                        decreases d.page_count - k,
                    {
                        proof {
                            assert(k * 4096 < d.page_count * 4096 && k * 4096 >= 0) by (nonlinear_arith)
                                requires
                                    0 <= k < d.page_count,
                            ;
                        }
                        let f = d.phys_start + k * PAGE_SIZE;
                        proof {
                            assert(f % 4096 == 0) by (nonlinear_arith)
                                requires
                                    d.phys_start % 4096 == 0,
                                    f == d.phys_start + k * 4096,
                            ;
                            assert(spec_frames_of_descriptor(d)[k as int] == f);
                            assert(spec_frames_of_descriptor(d).take(k + 1) =~= spec_frames_of_descriptor(d).take(k as int).push(f));
                        }
                        frames.push(f);
                        k = k + 1;
                    }
                    proof {
                        assert(mmap@.take(i + 1).drop_last() =~= mmap@.take(i as int));
                        assert(spec_frames_of_descriptor(d).take(d.page_count as int) =~= spec_frames_of_descriptor(d));
                        assert(frames@ =~= spec_frames_of(mmap@.take(i + 1)));
                    }
                },
            }
            i = i + 1;
        }
        proof {
            assert(mmap@.take(mmap@.len() as int) =~= mmap@);
        }
        BootFrameAllocator { frames }
    }

    /// Hand out one free frame, or report exhaustion.
    pub fn allocate_frame(&mut self) -> (r: Option<u64>)
        ensures
            old(self).frames@.len() == 0 ==> r is None && final(self).frames@ == old(self).frames@,
            old(self).frames@.len() > 0 ==> r == Some(old(self).frames@.last())
                && final(self).frames@ == old(self).frames@.drop_last(),
            old(self).wf() ==> final(self).wf(),
    {
        self.frames.pop()
    }

    /// How many frames are still free.
    pub fn free_count(&self) -> (r: usize)
        ensures
            r == self.frames@.len(),
    {
        self.frames.len()
    }
}

/// Lookup in a sequence of `(virtual page, physical frame)` entries: the
/// most recently inserted entry for `v` wins (entries are kept unique, so
/// at most one exists).
pub open spec fn plookup(s: Seq<(u64, u64)>, v: u64) -> Option<u64>
    decreases s.len(),
{
    if s.len() == 0 {
        None
    } else if s.last().0 == v {
        Some(s.last().1)
    } else {
        plookup(s.drop_last(), v)
    }
}

/// `plookup` finds exactly the entries that are present.
pub proof fn lemma_plookup_some(s: Seq<(u64, u64)>, v: u64)
    ensures
        (plookup(s, v) is Some) <==> exists|j: int| 0 <= j < s.len() && (#[trigger] s[j]).0 == v,
    decreases s.len(),
{
    if s.len() > 0 {
        lemma_plookup_some(s.drop_last(), v);
        if s.last().0 == v {
            assert(s[s.len() - 1].0 == v);
        } else if plookup(s.drop_last(), v) is Some {
            let j = choose|j: int| 0 <= j < s.drop_last().len() && (#[trigger] s.drop_last()[j]).0 == v;
            assert(s[j].0 == v);
        } else {
            assert forall|j: int| 0 <= j < s.len() implies (#[trigger] s[j]).0 != v by {
                if j < s.len() - 1 {
                    assert(s.drop_last()[j] == s[j]);
                }
            }
        }
    }
}

/// With unique keys, `plookup` returns the entry at any index that matches.
pub proof fn lemma_plookup_at_index(s: Seq<(u64, u64)>, j: int)
    requires
        0 <= j < s.len(),
        forall|a: int, b: int| 0 <= a < b < s.len() ==> (#[trigger] s[a]).0 != (#[trigger] s[b]).0,
    ensures
        plookup(s, s[j].0) == Some(s[j].1),
    decreases s.len(),
{
    if j == s.len() - 1 {
    } else {
        assert(s[j].0 != s[s.len() - 1].0);
        lemma_plookup_at_index(s.drop_last(), j);
        assert(s.drop_last()[j] == s[j]);
    }
}

/// A table of 4 KiB page mappings, each present and writable: one virtual
/// page base to one physical frame base.
pub struct PageMap {
    pub entries: Vec<(u64, u64)>,
}

impl PageMap {
    /// Entries are page-aligned on both sides and no virtual page appears
    /// twice.
    pub open spec fn wf(self) -> bool {
        &&& forall|i: int| 0 <= i < self.entries@.len()
            ==> page_aligned((#[trigger] self.entries@[i]).0) && page_aligned(self.entries@[i].1)
        &&& forall|a: int, b: int| 0 <= a < b < self.entries@.len()
            ==> (#[trigger] self.entries@[a]).0 != (#[trigger] self.entries@[b]).0
    }

    /// The frame the page at `v` is mapped to, if any.
    pub open spec fn spec_lookup(self, v: u64) -> Option<u64> {
        plookup(self.entries@, v)
    }

    /// An empty page table.
    pub fn new() -> (r: PageMap)
        ensures
            r.wf(),
            r.entries@.len() == 0,
            forall|v: u64| r.spec_lookup(v) is None,
    {
        let r = PageMap { entries: Vec::new() };
        proof {
            assert forall|v: u64| r.spec_lookup(v) is None by {
                lemma_plookup_some(r.entries@, v);
            }
        }
        r
    }

    /// The frame backing virtual page `v`, if one is mapped.
    pub fn lookup(&self, v: u64) -> (r: Option<u64>)
        requires
            self.wf(),
        ensures
            r == self.spec_lookup(v),
    {
        let n = self.entries.len();
        let mut i: usize = 0;
        while i < n
            invariant
                n == self.entries@.len(),
                i <= n,
                self.wf(),
                forall|j: int| 0 <= j < i ==> (#[trigger] self.entries@[j]).0 != v,
            decreases n - i,
        {
            let e = self.entries[i];
            if e.0 == v {
                proof {
                    lemma_plookup_at_index(self.entries@, i as int);
                }
                return Some(e.1);
            }
            i = i + 1;
        }
        proof {
            lemma_plookup_some(self.entries@, v);
        }
        None
    }

    /// Whether virtual page `v` is mapped.
    pub fn contains(&self, v: u64) -> (r: bool)
        requires
            self.wf(),
        ensures
            r == (self.spec_lookup(v) is Some),
    {
        self.lookup(v).is_some()
    }

    /// Map virtual page `v` to physical frame `p`. The page must be fresh.
    pub fn insert(&mut self, v: u64, p: u64)
        requires
            old(self).wf(),
            page_aligned(v),
            page_aligned(p),
            old(self).spec_lookup(v) is None,
        ensures
            final(self).wf(),
            final(self).entries@ == old(self).entries@.push((v, p)),
            final(self).spec_lookup(v) == Some(p),
            forall|w: u64| w != v ==> final(self).spec_lookup(w) == old(self).spec_lookup(w),
    {
        proof {
            lemma_plookup_some(old(self).entries@, v);
        }
        self.entries.push((v, p));
        proof {
            assert(self.entries@.drop_last() =~= old(self).entries@);
            assert forall|w: u64| w != v implies plookup(self.entries@, w) == plookup(old(self).entries@, w) by {
                assert(self.entries@.last() == (v, p));
            }
        }
    }
}

/// The base address of the `k`-th page after `base`.
pub open spec fn page_at(base: u64, k: int) -> u64 {
    (base + k * (PAGE_SIZE as int)) as u64
}

/// Consecutive page bases below a non-overflowing bound are distinct.
proof fn lemma_page_at_distinct(base: u64, count: u64, j: int, k: int)
    requires
        base + count * (PAGE_SIZE as int) <= u64::MAX,
        0 <= j < k < count,
    ensures
        page_at(base, j) < page_at(base, k),
        page_at(base, k) < base + count * (PAGE_SIZE as int),
{
    assert(j * 4096 < k * 4096 && k * 4096 < count * 4096) by (nonlinear_arith)
        requires
            0 <= j < k < count,
    ;
}

/// Map `count` fresh pages starting at `addr`, backing each with a frame
/// from the allocator, writable. Fails without touching any state if a page
/// in the range is already mapped, or — for a conflict-free range — if the
/// allocator has fewer than `count` frames.
pub fn map_range(
    page_map: &mut PageMap,
    addr: u64,
    count: u64,
    frame_allocator: &mut BootFrameAllocator,
) -> (r: Result<PageRange, MapError>)
    requires
        old(page_map).wf(),
        old(frame_allocator).wf(),
        page_aligned(addr),
        addr + count * (PAGE_SIZE as int) <= u64::MAX,
    ensures
        final(page_map).wf(),
        final(frame_allocator).wf(),
        match r {
            Ok(range) => {
                &&& range.start == addr
                &&& range.end == addr + count * (PAGE_SIZE as int)
                &&& range.wf()
                &&& count <= old(frame_allocator).frames@.len()
                &&& forall|k: int| 0 <= k < count
                    ==> old(page_map).spec_lookup(#[trigger] page_at(addr, k)) is None
                &&& final(frame_allocator).frames@ == old(frame_allocator).frames@.take(
                    old(frame_allocator).frames@.len() - count,
                )
                &&& forall|k: int| 0 <= k < count
                    ==> final(page_map).spec_lookup(#[trigger] page_at(addr, k))
                        == Some(old(frame_allocator).frames@[old(frame_allocator).frames@.len() - 1 - k])
                &&& forall|w: u64| !range.spec_contains(w)
                    ==> final(page_map).spec_lookup(w) == old(page_map).spec_lookup(w)
            },
            Err(MapError::PageAlreadyMapped) => {
                &&& exists|k: int| 0 <= k < count
                    && old(page_map).spec_lookup(#[trigger] page_at(addr, k)) is Some
                &&& *final(page_map) == *old(page_map)
                &&& *final(frame_allocator) == *old(frame_allocator)
            },
            Err(MapError::FrameAllocationFailed) => {
                &&& old(frame_allocator).frames@.len() < count
                &&& forall|k: int| 0 <= k < count
                    ==> old(page_map).spec_lookup(#[trigger] page_at(addr, k)) is None
                &&& *final(page_map) == *old(page_map)
                &&& *final(frame_allocator) == *old(frame_allocator)
            },
        },
{
    // First pass: the whole range must be unmapped.
    let mut k: u64 = 0;
    let mut page: u64 = addr;
    while k < count
        invariant
            0 <= k <= count,
            *page_map == *old(page_map),
            *frame_allocator == *old(frame_allocator),
            frame_allocator.wf(),
            page_map.wf(),
            page_aligned(addr),
            addr + count * (PAGE_SIZE as int) <= u64::MAX,
            page == page_at(addr, k as int),
            forall|j: int| 0 <= j < k ==> page_map.spec_lookup(#[trigger] page_at(addr, j)) is None,
        decreases count - k,
    {
        proof {
            assert(k * 4096 >= 0 && k * 4096 < count * 4096 && (k + 1) * 4096 == k * 4096 + 4096
                && (k + 1) * 4096 <= count * 4096) by (nonlinear_arith)
                requires
                    0 <= k < count,
            ;
        }
        if page_map.contains(page) {
            return Err(MapError::PageAlreadyMapped);
        }
        k = k + 1;
        page = page + PAGE_SIZE;
    }
    // Second pass needs one frame per page, up front, so failure leaves the
    // map untouched.
    if (frame_allocator.free_count() as u64) < count {
        return Err(MapError::FrameAllocationFailed);
    }
    let ghost frames0 = frame_allocator.frames@;
    let mut k: u64 = 0;
    let mut page: u64 = addr;
    while k < count
        invariant
            0 <= k <= count,
            page_map.wf(),
            frame_allocator.wf(),
            page_aligned(addr),
            addr + count * (PAGE_SIZE as int) <= u64::MAX,
            count <= frames0.len(),
            frames0 == old(frame_allocator).frames@,
            page == page_at(addr, k as int),
            frame_allocator.frames@ == frames0.take(frames0.len() - k),
            forall|j: int| 0 <= j < count
                ==> old(page_map).spec_lookup(#[trigger] page_at(addr, j)) is None,
            forall|j: int| k <= j < count ==> page_map.spec_lookup(#[trigger] page_at(addr, j)) is None,
            forall|j: int| 0 <= j < k
                ==> page_map.spec_lookup(#[trigger] page_at(addr, j)) == Some(frames0[frames0.len() - 1 - j]),
            forall|w: u64| !(addr <= w < addr + count * (PAGE_SIZE as int))
                ==> page_map.spec_lookup(w) == old(page_map).spec_lookup(w),
        decreases count - k,
    {
        proof {
            assert(k * 4096 >= 0 && k * 4096 < count * 4096) by (nonlinear_arith)
                requires
                    0 <= k < count,
            ;
            assert(page % 4096 == 0) by (nonlinear_arith)
                requires
                    addr % 4096 == 0,
                    page == addr + k * 4096,
            ;
            assert(frames0.take(frames0.len() - k).len() > 0);
        }
        let f = match frame_allocator.allocate_frame() {
            Some(f) => f,
            None => {
                // unreachable: `count` frames were checked to be available
                proof {
                    assert(false);
                }
                return Err(MapError::FrameAllocationFailed);
            },
        };
        proof {
            assert(frames0.take(frames0.len() - k).last() == frames0[frames0.len() - 1 - k as int]);
            assert(frames0.take(frames0.len() - k).drop_last() =~= frames0.take(frames0.len() - (k + 1)));
            assert(page_aligned(frames0[frames0.len() - 1 - k as int]));
        }
        page_map.insert(page, f);
        proof {
            assert forall|j: int| 0 <= j < count && j != k implies page_at(addr, j) != page_at(addr, k as int) by {
                if j < k {
                    lemma_page_at_distinct(addr, count, j, k as int);
                } else {
                    lemma_page_at_distinct(addr, count, k as int, j);
                }
            }
            assert forall|w: u64| !(addr <= w < addr + count * (PAGE_SIZE as int))
                implies page_map.spec_lookup(w) == old(page_map).spec_lookup(w) by {
                assert(addr <= page_at(addr, k as int) < addr + count * (PAGE_SIZE as int)) by (nonlinear_arith)
                    requires
                        0 <= k < count,
                        addr + count * (PAGE_SIZE as int) <= u64::MAX,
                ;
            }
        }
        proof {
            assert((k + 1) * 4096 == k * 4096 + 4096 && (k + 1) * 4096 <= count * 4096) by (nonlinear_arith)
                requires
                    0 <= k < count,
            ;
        }
        k = k + 1;
        page = page + PAGE_SIZE;
    }
    proof {
        assert(count * 4096 >= 0) by (nonlinear_arith);
    }
    Ok(PageRange { start: addr, end: page })
}

/// Whether the physical-memory window is installed: every physical page
/// below `max_phys` is mapped, writable, at `offset` plus its own address.
pub open spec fn window_mapped(pm: PageMap, offset: u64, max_phys: u64) -> bool {
    forall|k: int| 0 <= k < max_phys / (PAGE_SIZE as u64)
        ==> pm.spec_lookup(#[trigger] page_at(offset, k)) == Some((k * (PAGE_SIZE as int)) as u64)
}

/// Install the physical-memory window: map every 4 KiB page of
/// `[0, max_phys)` at virtual `offset + page`, present and writable.
/// (The frames that hold intermediate page-table nodes are the MMU's
/// mechanism and are not modelled here.)
pub fn map_physical_memory(offset: u64, max_phys: u64, page_map: &mut PageMap)
    requires
        old(page_map).wf(),
        page_aligned(offset),
        page_aligned(max_phys),
        offset + max_phys <= u64::MAX,
        forall|k: int| 0 <= k < max_phys / (PAGE_SIZE as u64)
            ==> old(page_map).spec_lookup(#[trigger] page_at(offset, k)) is None,
    ensures
        final(page_map).wf(),
        window_mapped(*final(page_map), offset, max_phys),
        forall|w: u64| !(offset <= w < offset + max_phys)
            ==> final(page_map).spec_lookup(w) == old(page_map).spec_lookup(w),
{
    let count: u64 = max_phys / PAGE_SIZE;
    proof {
        assert(count * (PAGE_SIZE as int) == max_phys) by (nonlinear_arith)
            requires
                max_phys % 4096 == 0,
                count == max_phys / 4096,
        ;
    }
    let mut k: u64 = 0;
    let mut page: u64 = offset;
    let mut phys: u64 = 0;
    while k < count
        invariant
            0 <= k <= count,
            page_map.wf(),
            page_aligned(offset),
            count * (PAGE_SIZE as int) == max_phys,
            offset + max_phys <= u64::MAX,
            page == page_at(offset, k as int),
            phys == k * (PAGE_SIZE as int),
            forall|j: int| k <= j < count ==> page_map.spec_lookup(#[trigger] page_at(offset, j)) is None,
            forall|j: int| 0 <= j < k
                ==> page_map.spec_lookup(#[trigger] page_at(offset, j)) == Some((j * (PAGE_SIZE as int)) as u64),
            forall|w: u64| !(offset <= w < offset + max_phys)
                ==> page_map.spec_lookup(w) == old(page_map).spec_lookup(w),
        decreases count - k,
    {
        proof {
            assert(k * 4096 >= 0 && k * 4096 < count * 4096) by (nonlinear_arith)
                requires
                    0 <= k < count,
            ;
            assert(phys % 4096 == 0) by (nonlinear_arith)
                requires
                    phys == k * 4096,
                    k >= 0,
            ;
            assert(page % 4096 == 0) by (nonlinear_arith)
                requires
                    offset % 4096 == 0,
                    page == offset + k * 4096,
            ;
        }
        page_map.insert(page, phys);
        proof {
            assert forall|j: int| 0 <= j < count && j != k implies page_at(offset, j) != page_at(offset, k as int) by {
                if j < k {
                    lemma_page_at_distinct(offset, count, j, k as int);
                } else {
                    lemma_page_at_distinct(offset, count, k as int, j);
                }
            }
            assert forall|w: u64| !(offset <= w < offset + max_phys)
                implies page_map.spec_lookup(w) == old(page_map).spec_lookup(w) by {
                assert(offset <= page_at(offset, k as int) < offset + count * (PAGE_SIZE as int)) by (nonlinear_arith)
                    requires
                        0 <= k < count,
                        offset + count * (PAGE_SIZE as int) <= u64::MAX,
                ;
            }
        }
        proof {
            assert((k + 1) * 4096 == k * 4096 + 4096 && (k + 1) * 4096 <= count * 4096) by (nonlinear_arith)
                requires
                    0 <= k < count,
            ;
        }
        k = k + 1;
        page = page + PAGE_SIZE;
        phys = phys + PAGE_SIZE;
    }
}

/// The physical-memory window translates faithfully: for every virtual
/// address `v` in `[offset, offset + max_phys)`, the value `v - offset` is a
/// physical address below `max_phys`, and the page containing `v` is mapped,
/// writable, to the frame containing `v - offset`.
pub proof fn lemma_physical_window(pm: PageMap, offset: u64, max_phys: u64, v: u64)
    requires
        window_mapped(pm, offset, max_phys),
        page_aligned(offset),
        page_aligned(max_phys),
        offset + max_phys <= u64::MAX,
        offset <= v < offset + max_phys,
    ensures
        ((v - offset) as u64) < max_phys,
        pm.spec_lookup(spec_page_base(v)) == Some(spec_page_base((v - offset) as u64)),
{
    let d = (v - offset) as u64;
    let k = d as int / 4096;
    let r = d as int % 4096;
    assert(d as int == 4096 * k + r && 0 <= r < 4096) by (nonlinear_arith)
        requires
            k == d as int / 4096,
            r == d as int % 4096,
            d >= 0,
    ;
    assert(v as int % 4096 == r) by (nonlinear_arith)
        requires
            offset % 4096 == 0,
            v == offset + 4096 * k + r,
            0 <= r < 4096,
            k >= 0,
    ;
    assert(d as int % 4096 == r) by (nonlinear_arith)
        requires
            d == 4096 * k + r,
            0 <= r < 4096,
            k >= 0,
    ;
    assert(k < max_phys / 4096) by (nonlinear_arith)
        requires
            max_phys % 4096 == 0,
            4096 * k + r < max_phys,
            0 <= r < 4096,
            k >= 0,
    ;
    assert(spec_page_base(v) == page_at(offset, k));
    assert(spec_page_base(d) == (k * 4096) as u64);
    assert(pm.spec_lookup(page_at(offset, k)) == Some((k * (PAGE_SIZE as int)) as u64));
}

} // verus!
