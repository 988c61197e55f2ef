use ysos_core::config::Config;
use ysos_core::context::ProcessContext;
use ysos_core::memory::{
    map_physical_memory, map_range, max_phys_addr, page_base, BootFrameAllocator, MapError,
    MemoryDescriptor, MemoryKind, PageMap,
};
use ysos_core::paging::{Cr3RegValue, PageTableContext};
use ysos_core::pid::PidCounter;
use ysos_core::proc;
use ysos_core::processor::Processors;

fn descriptor(start: u64, pages: u64, kind: MemoryKind) -> MemoryDescriptor {
    MemoryDescriptor { phys_start: start, page_count: pages, kind, attribute: 0 }
}

#[test]
fn physical_window_translates_every_page() {
    // map a small physical window at a high offset and check the
    // translation virt - offset == phys, present and writable
    let offset = 0x8000_0000_0000u64;
    let max_phys = 8 * 0x1000u64;
    let mut pm = PageMap::new();
    map_physical_memory(offset, max_phys, &mut pm);
    let mut p = 0u64;
    while p < max_phys {
        assert_eq!(pm.lookup(offset + p), Some(p));
        p += 0x1000;
    }
    // addresses outside the window stay unmapped
    assert_eq!(pm.lookup(offset + max_phys), None);
    assert_eq!(pm.lookup(0), None);
    // a byte in the middle of a page translates through its page
    let v = offset + 3 * 0x1000 + 0x123;
    assert_eq!(pm.lookup(page_base(v)), Some(page_base(v - offset)));
}

#[test]
fn map_range_allocates_and_maps() {
    let mut pm = PageMap::new();
    let mut alloc = BootFrameAllocator::new(vec![0x7000, 0x8000, 0x9000]);
    let range = map_range(&mut pm, 0x40_0000, 2, &mut alloc).unwrap();
    assert_eq!(range.start, 0x40_0000);
    assert_eq!(range.end, 0x40_2000);
    // frames come off the back of the free list
    assert_eq!(pm.lookup(0x40_0000), Some(0x9000));
    assert_eq!(pm.lookup(0x40_1000), Some(0x8000));
    assert_eq!(alloc.free_count(), 1);
}

#[test]
fn map_range_fails_without_frames() {
    let mut pm = PageMap::new();
    let mut alloc = BootFrameAllocator::new(vec![0x7000]);
    let r = map_range(&mut pm, 0x40_0000, 2, &mut alloc);
    assert_eq!(r, Err(MapError::FrameAllocationFailed));
    // failure left everything untouched
    assert_eq!(alloc.free_count(), 1);
    assert_eq!(pm.lookup(0x40_0000), None);
}

#[test]
fn map_range_rejects_conflicts() {
    let mut pm = PageMap::new();
    let mut alloc = BootFrameAllocator::new(vec![0x7000, 0x8000, 0x9000]);
    map_range(&mut pm, 0x40_0000, 1, &mut alloc).unwrap();
    let r = map_range(&mut pm, 0x40_0000, 1, &mut alloc);
    assert_eq!(r, Err(MapError::PageAlreadyMapped));
    assert_eq!(alloc.free_count(), 2);
}

#[test]
fn allocator_seeded_from_memory_map() {
    let mmap = vec![
        descriptor(0x0, 2, MemoryKind::Conventional),
        descriptor(0x5000, 1, MemoryKind::Reserved),
        descriptor(0x8000, 2, MemoryKind::LoaderData),
    ];
    let alloc = BootFrameAllocator::from_memory_map(&mmap);
    // one frame per page of every free descriptor, in map order
    assert_eq!(alloc.frames, vec![0x0, 0x1000, 0x8000, 0x9000]);
}

#[test]
fn allocate_frame_hands_out_from_the_back() {
    let mut alloc = BootFrameAllocator::new(vec![0x1000, 0x2000]);
    assert_eq!(alloc.allocate_frame(), Some(0x2000));
    assert_eq!(alloc.allocate_frame(), Some(0x1000));
    assert_eq!(alloc.allocate_frame(), None);
}

#[test]
fn max_phys_clamps_to_four_gib() {
    let small = vec![descriptor(0x0, 16, MemoryKind::Conventional)];
    assert_eq!(max_phys_addr(&small), 0x1_0000_0000);
    let large = vec![
        descriptor(0x0, 16, MemoryKind::Conventional),
        descriptor(0x2_0000_0000, 0x10000, MemoryKind::Conventional),
    ];
    assert_eq!(max_phys_addr(&large), 0x2_0000_0000 + 0x10000 * 0x1000);
}

#[test]
fn boot_reaches_the_kernel() {
    // the boot path, end to end on the model: parse the configuration,
    // bound physical memory, install the window, map the kernel stack,
    // and enter the kernel with a banner to print
    let config = Config::parse(
        b"kernel_path=\\KERNEL.ELF\nphysical_memory_offset=0xFFFF800000000000\nkernel_stack_address=0xFFFFFF0100000000\nkernel_stack_size=512\n",
    );
    let mmap = vec![descriptor(0x0, 64, MemoryKind::Conventional)];
    // the window is clamped to 4 GiB at least; keep the model small here
    // by mapping only the RAM the map describes
    let ram_end = 64 * 0x1000u64;
    let mut pm = PageMap::new();
    map_physical_memory(config.physical_memory_offset, ram_end, &mut pm);
    let mut alloc = BootFrameAllocator::from_memory_map(&mmap);
    let range = map_range(
        &mut pm,
        config.kernel_stack_address,
        8,
        &mut alloc,
    )
    .unwrap();
    assert_eq!(range.start, 0xFFFF_FF01_0000_0000);
    // the kernel comes up: process manager, kernel process, banner
    let mut counter = PidCounter::new();
    let mut processors = Processors::new();
    let table = PageTableContext::new(Cr3RegValue::new(0x1000, 0), pm);
    let manager = proc::init(table, &mut counter, &mut processors, 0);
    assert!(manager.processes.contains_key(&1));
    let banner = ysos_core::utils::get_ascii_header();
    assert!(!banner.is_empty());
}

#[test]
fn stack_growth_on_page_fault() {
    // a process faults below its stack: the handler maps the missing
    // pages and extends the recorded range; the program then finishes
    let mut counter = PidCounter::new();
    let mut processors = Processors::new();
    let table = PageTableContext::new(Cr3RegValue::new(0x1000, 0), PageMap::new());
    let mut manager = proc::init(table, &mut counter, &mut processors, 0);
    let mut alloc = BootFrameAllocator::new((0..64).map(|i| 0x100000 + i * 0x1000).collect());
    let pid = manager.spawn_kernel_thread(0x4000, "stack".to_string(), None, &mut counter, &mut alloc);
    let mut ctx = ProcessContext::new();
    let running = proc::switch(&mut ctx, &mut manager, &mut processors, 0);
    assert_eq!(running.0, pid.0);

    let slot_bot = 0x0000_4000_0000_0000u64 - 0x1000 - (pid.0 as u64) * 0x1000;
    // a write eight pages below the mapped stack page faults (not-present)
    let fault_addr = slot_bot - 8 * 0x1000 + 0x10;
    let handled = manager.handle_page_fault(fault_addr, 0, &processors, 0, &mut alloc);
    assert!(handled);
    let p = manager.processes.get(&pid.0).unwrap();
    let seg = p.inner.proc_data.as_ref().unwrap().stack_segment.unwrap();
    assert_eq!(seg.start, page_base(fault_addr));
    // every page between the fault and the old base is now mapped
    let table = p.inner.page_table.as_ref().unwrap();
    let mut page = page_base(fault_addr);
    while page < slot_bot {
        assert!(table.map.lookup(page).is_some());
        page += 0x1000;
    }
    // the program completes and exits 0; no panic
    proc::process_exit(&mut manager, &processors, 0, 0);
    assert_eq!(manager.get_exit_code(pid), Some(0));
}

#[test]
fn permission_violation_is_not_handled() {
    let mut counter = PidCounter::new();
    let mut processors = Processors::new();
    let table = PageTableContext::new(Cr3RegValue::new(0x1000, 0), PageMap::new());
    let mut manager = proc::init(table, &mut counter, &mut processors, 0);
    let mut alloc = BootFrameAllocator::new((0..16).map(|i| 0x100000 + i * 0x1000).collect());
    let pid = manager.spawn_kernel_thread(0x4000, "t".to_string(), None, &mut counter, &mut alloc);
    let mut ctx = ProcessContext::new();
    proc::switch(&mut ctx, &mut manager, &mut processors, 0);
    let slot_bot = 0x0000_4000_0000_0000u64 - 0x1000 - (pid.0 as u64) * 0x1000;
    // error-code bit 0: a protection violation is never recovered
    assert!(!manager.handle_page_fault(slot_bot - 0x1000, 1, &processors, 0, &mut alloc));
}

#[test]
fn fault_outside_the_stack_slot_is_not_handled() {
    let mut counter = PidCounter::new();
    let mut processors = Processors::new();
    let table = PageTableContext::new(Cr3RegValue::new(0x1000, 0), PageMap::new());
    let mut manager = proc::init(table, &mut counter, &mut processors, 0);
    let mut alloc = BootFrameAllocator::new((0..16).map(|i| 0x100000 + i * 0x1000).collect());
    manager.spawn_kernel_thread(0x4000, "t".to_string(), None, &mut counter, &mut alloc);
    let mut ctx = ProcessContext::new();
    proc::switch(&mut ctx, &mut manager, &mut processors, 0);
    // an address in a different stack slot does not belong to this process
    assert!(!manager.handle_page_fault(0x1234, 0, &processors, 0, &mut alloc));
}

#[test]
fn page_table_clone_shares_mappings() {
    let mut pm = PageMap::new();
    let mut alloc = BootFrameAllocator::new(vec![0x7000, 0x8000, 0x9000]);
    map_range(&mut pm, 0x40_0000, 1, &mut alloc).unwrap();
    let parent = PageTableContext::new(Cr3RegValue::new(0x2000, 0), pm);
    let child = parent.clone_l4(&mut alloc);
    // the clone gets a fresh root frame but the same mappings
    assert_eq!(child.reg.addr, 0x8000);
    assert_eq!(child.reg.flags, 0);
    assert_eq!(child.map.lookup(0x40_0000), parent.map.lookup(0x40_0000));
}
