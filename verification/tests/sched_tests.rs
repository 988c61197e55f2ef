use ysos_core::context::ProcessContext;
use ysos_core::manager::ProcessManager;
use ysos_core::memory::{BootFrameAllocator, PageMap};
use ysos_core::paging::{Cr3RegValue, PageTableContext};
use ysos_core::pid::{PidCounter, ProcessId, KERNEL_PID};
use ysos_core::proc::{self, ProgramStatus};
use ysos_core::processor::Processors;
use ysos_core::process::Process;
use ysos_core::utils;

/// Frames at 0x100000 upwards, enough for a few spawns.
fn frames(n: u64) -> BootFrameAllocator {
    let mut v = Vec::new();
    let mut i = 0u64;
    while i < n {
        v.push(0x100000 + i * 0x1000);
        i += 1;
    }
    BootFrameAllocator::new(v)
}

fn boot() -> (ProcessManager, Processors, PidCounter, BootFrameAllocator) {
    let mut counter = PidCounter::new();
    let mut processors = Processors::new();
    let table = PageTableContext::new(Cr3RegValue::new(0x1000, 0), PageMap::new());
    let manager = proc::init(table, &mut counter, &mut processors, 0);
    (manager, processors, counter, frames(64))
}

#[test]
fn pids_strictly_increasing_never_zero() {
    let mut counter = PidCounter::new();
    let mut last = 0u16;
    for _ in 0..100 {
        let pid = ProcessId::new(&mut counter);
        assert!(pid.0 > 0);
        assert!(pid.0 > last);
        last = pid.0;
    }
}

#[test]
fn init_makes_the_kernel_process_current() {
    let (manager, processors, counter, _frames) = boot();
    assert_eq!(counter.next, 2);
    assert_eq!(processors.slots[0].current, KERNEL_PID);
    let k = manager.processes.get(&KERNEL_PID).unwrap();
    assert_eq!(k.inner.status, ProgramStatus::Running);
    assert_eq!(k.inner.name, "kernel".to_string());
    assert!(k.inner.exit_code.is_none());
}

#[test]
fn spawn_and_exit() {
    // kernel creates a thread "t"; it runs, then exits with code 0
    let (mut manager, mut processors, mut counter, mut alloc) = boot();
    let pid = manager.spawn_kernel_thread(
        0x4000,
        "t".to_string(),
        None,
        &mut counter,
        &mut alloc,
    );
    assert_eq!(pid.0, 2);
    // while it has not run, its exit code is absent (it is Ready, not Running)
    assert_eq!(manager.get_exit_code(pid), None);
    // it shows up in the process listing
    let rows = manager.print_process_list();
    assert!(rows.iter().any(|r| r.pid == pid.0));

    // a tick: the kernel yields, the thread is selected
    let mut ctx = ProcessContext::new();
    let running = proc::switch(&mut ctx, &mut manager, &mut processors, 0);
    assert_eq!(running.0, pid.0);
    assert_eq!(
        manager.processes.get(&pid.0).unwrap().inner.status,
        ProgramStatus::Running
    );
    // a Running process has no exit code yet
    assert_eq!(manager.get_exit_code(pid), None);

    // the thread exits
    proc::process_exit(&mut manager, &processors, 0, 0);
    assert_eq!(manager.get_exit_code(pid), Some(0));
    let p = manager.processes.get(&pid.0).unwrap();
    assert_eq!(p.inner.status, ProgramStatus::Dead);
    assert!(p.inner.page_table.is_none());
    assert!(p.inner.proc_data.is_none());

    // it disappears from the listing and is never selected again
    let rows = manager.print_process_list();
    assert!(!rows.iter().any(|r| r.pid == pid.0));
    let running = proc::switch(&mut ctx, &mut manager, &mut processors, 0);
    assert_eq!(running.0, KERNEL_PID);
}

#[test]
fn round_robin_is_fair() {
    // three identical counters share the core with the kernel process;
    // over 10000 ticks the rotation gives every process the same share
    let (mut manager, mut processors, mut counter, mut alloc) = boot();
    let mut pids = Vec::new();
    for name in ["a", "b", "c"] {
        pids.push(manager.spawn_kernel_thread(
            0x4000,
            name.to_string(),
            None,
            &mut counter,
            &mut alloc,
        ));
    }
    let mut ctx = ProcessContext::new();
    for _ in 0..10000 {
        proc::switch(&mut ctx, &mut manager, &mut processors, 0);
    }
    let ticks: Vec<usize> = pids
        .iter()
        .map(|p| manager.processes.get(&p.0).unwrap().inner.ticks_passed)
        .collect();
    // four processes rotate, so each counter gets within one tick of a
    // quarter of all ticks
    for &t in &ticks {
        assert!(t >= 2499, "a counter was starved: {:?}", ticks);
        assert!(t <= 2501, "a counter ran too often: {:?}", ticks);
    }
    let spread = ticks.iter().max().unwrap() - ticks.iter().min().unwrap();
    assert!(spread <= 1, "rotation is uneven: {:?}", ticks);
}

#[test]
fn yielding_process_gets_its_context_back() {
    // save/restore round trip across a full rotation
    let (mut manager, mut processors, mut counter, mut alloc) = boot();
    let pid = manager.spawn_kernel_thread(
        0x4000,
        "t".to_string(),
        None,
        &mut counter,
        &mut alloc,
    );
    let mut ctx = ProcessContext::new();
    // run the thread, then hand it a distinctive register file
    proc::switch(&mut ctx, &mut manager, &mut processors, 0);
    ctx.value.regs.rax = 0xDEAD;
    ctx.value.regs.r15 = 77;
    let frozen = ctx.value;
    // the thread yields: the kernel runs with its own context
    let running = proc::switch(&mut ctx, &mut manager, &mut processors, 0);
    assert_eq!(running.0, KERNEL_PID);
    assert_ne!(ctx.value.regs.rax, 0xDEAD);
    // the kernel yields: the thread's registers come back bit for bit
    let running = proc::switch(&mut ctx, &mut manager, &mut processors, 0);
    assert_eq!(running.0, pid.0);
    assert_eq!(ctx.value, frozen);
}

#[test]
fn spawned_thread_stack_frame() {
    let (mut manager, _processors, mut counter, mut alloc) = boot();
    let pid = manager.spawn_kernel_thread(
        0xCAFE00,
        "T".to_string(),
        None,
        &mut counter,
        &mut alloc,
    );
    let p = manager.processes.get(&pid.0).unwrap();
    // names are folded to lowercase
    assert_eq!(p.inner.name, "t".to_string());
    let sf = p.inner.context.value.stack_frame;
    assert_eq!(sf.instruction_pointer, 0xCAFE00);
    // stack slot 2: STACK_INIT_TOP - 2 * STACK_DEF_SIZE
    assert_eq!(sf.stack_pointer, 0x0000_4000_0000_0000 - 8 - 2 * 0x1000);
    assert_eq!(sf.code_segment, 8);
    assert_eq!(sf.stack_segment, 16);
    assert_eq!(sf.cpu_flags, 0x3200);
    assert_eq!(p.inner.parent, Some(KERNEL_PID));
    // the stack page was mapped in its own page table
    let table = p.inner.page_table.as_ref().unwrap();
    let bot = 0x0000_4000_0000_0000u64 - 0x1000 - 2 * 0x1000;
    assert!(table.map.lookup(bot).is_some());
}

#[test]
fn kill_unknown_pid_changes_nothing() {
    // killing a PID that does not exist only warns
    let (mut manager, _processors, _counter, _alloc) = boot();
    let rows_before = manager.print_process_list();
    let queue_before: Vec<u16> = manager.ready_queue.iter().copied().collect();
    manager.kill(ProcessId(9999), -1);
    let rows_after = manager.print_process_list();
    assert_eq!(rows_before.len(), rows_after.len());
    assert_eq!(manager.processes.len(), 1);
    let queue_after: Vec<u16> = manager.ready_queue.iter().copied().collect();
    assert_eq!(queue_before, queue_after);
    assert_eq!(manager.get_exit_code(ProcessId(9999)), None);
}

#[test]
fn kill_twice_keeps_first_exit_code() {
    let (mut manager, mut processors, mut counter, mut alloc) = boot();
    let pid = manager.spawn_kernel_thread(
        0x4000,
        "t".to_string(),
        None,
        &mut counter,
        &mut alloc,
    );
    let mut ctx = ProcessContext::new();
    proc::switch(&mut ctx, &mut manager, &mut processors, 0);
    manager.kill(pid, 3);
    assert_eq!(manager.get_exit_code(pid), Some(3));
    // a second kill is a warning, not a change
    manager.kill(pid, 4);
    assert_eq!(manager.get_exit_code(pid), Some(3));
}

#[test]
fn dead_process_is_skipped_in_the_queue() {
    let (mut manager, mut processors, mut counter, mut alloc) = boot();
    let a = manager.spawn_kernel_thread(0x1000, "a".to_string(), None, &mut counter, &mut alloc);
    let b = manager.spawn_kernel_thread(0x2000, "b".to_string(), None, &mut counter, &mut alloc);
    // kill `a` while it sits in the ready queue
    manager.kill(a, -1);
    let mut ctx = ProcessContext::new();
    let running = proc::switch(&mut ctx, &mut manager, &mut processors, 0);
    // `a` was popped but not restored; `b` runs
    assert_eq!(running.0, b.0);
    assert_eq!(
        manager.processes.get(&a.0).unwrap().inner.status,
        ProgramStatus::Dead
    );
}

#[test]
fn test_threads_carry_their_id() {
    let (mut manager, _processors, mut counter, mut alloc) = boot();
    let id = "7".to_string();
    let pid = utils::new_test_thread(0x4000, &id, &mut manager, &mut counter, &mut alloc);
    let p = manager.processes.get(&pid.0).unwrap();
    assert_eq!(p.inner.name, "#7_test".to_string());
    let data = p.inner.proc_data.as_ref().unwrap();
    assert_eq!(data.env(&"id".to_string()), Some("7".to_string()));
    assert_eq!(data.env(&"other".to_string()), None);
}

#[test]
fn stack_test_thread_and_workload() {
    let (mut manager, mut processors, mut counter, mut alloc) = boot();
    let pid = utils::new_stack_test_thread(0x5000, &mut manager, &mut counter, &mut alloc);
    assert_eq!(
        manager.processes.get(&pid.0).unwrap().inner.name,
        "stack".to_string()
    );
    // the workload fills its table and exits 0
    let table = utils::huge_stack();
    assert_eq!(table.len(), 0x1000);
    assert_eq!(table[0], 0);
    assert_eq!(table[0x800], 0x800);
    assert_eq!(table[0xFFF], 0xFFF);
    let code = utils::stack_test();
    assert_eq!(code, 0);
    // drive the thread to completion
    let mut ctx = ProcessContext::new();
    let running = proc::switch(&mut ctx, &mut manager, &mut processors, 0);
    assert_eq!(running.0, pid.0);
    proc::process_exit(&mut manager, &processors, 0, code);
    assert_eq!(manager.get_exit_code(pid), Some(0));
}

#[test]
fn process_accessors() {
    let mut counter = PidCounter::new();
    let table = PageTableContext::new(Cr3RegValue::new(0x1000, 0), PageMap::new());
    let mut p = Process::new(&mut counter, "Demo".to_string(), None, table, None);
    assert_eq!(p.pid().0, 1);
    assert_eq!(p.read().name(), &"demo".to_string());
    assert!(p.read().is_ready());
    assert_eq!(p.read().exit_code(), None);
    assert_eq!(p.read().parent(), None);
    p.write().tick();
    assert_eq!(p.read().ticks_passed, 1);
    p.write().resume();
    assert_eq!(p.read().status(), ProgramStatus::Running);
    p.write().pause();
    assert!(p.read().is_ready());
    p.kill(9);
    assert_eq!(p.read().exit_code(), Some(9));
    assert_eq!(p.read().status(), ProgramStatus::Dead);
}
