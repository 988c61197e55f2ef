//! Process lifecycle states and the virtual layout of process stacks.
//!
//! Stack slots are indexed by PID: slot `i` is the 4 GiB-aligned region
//! whose default-sized initial mapping ends just below
//! `STACK_INIT_TOP - i * STACK_DEF_SIZE`. Bits above `log2(STACK_MAX_SIZE)`
//! of an address therefore identify which process a fault address belongs
//! to; the low bits give the offset inside its stack region.

use vstd::prelude::*;

use crate::context::{ProcessContext, ProcessContextValue};
use crate::data::{spec_env_lookup, ProcessData};
use crate::manager::{spec_first_ready, spec_queue_after, ProcessManager};
use crate::paging::PageTableContext;
use crate::pid::{PidCounter, ProcessId, KERNEL_PID};
use crate::process::{Process, ProcessInner};
use crate::processor::{Processors, MAX_CPU_COUNT};

verus! {

/// Top of the user-stack area; slots grow downwards from here.
pub const STACK_MAX: u64 = 0x0000_4000_0000_0000;

/// Largest number of pages one process stack may ever span.
pub const STACK_MAX_PAGES: u64 = 0x100000;

/// Largest size in bytes of one process stack slot (4 GiB).
pub const STACK_MAX_SIZE: u64 = STACK_MAX_PAGES * 0x1000;

/// Clears the in-slot offset of an address, leaving the bits that identify
/// the slot.
pub const STACK_START_MASK: u64 = !(STACK_MAX_SIZE - 1);

/// Pages initially mapped for a fresh process stack.
pub const STACK_DEF_PAGE: u64 = 1;

/// Bytes initially mapped for a fresh process stack.
pub const STACK_DEF_SIZE: u64 = STACK_DEF_PAGE * 0x1000;

/// Bottom of the initial mapping of stack slot 0.
pub const STACK_INIT_BOT: u64 = STACK_MAX - STACK_DEF_SIZE;

/// Initial stack pointer of stack slot 0 (8-byte aligned, just below the
/// slot top).
pub const STACK_INIT_TOP: u64 = STACK_MAX - 8;

/// Top of the kernel stack area.
pub const KSTACK_MAX: u64 = 0xffff_ff02_0000_0000;

/// Pages initially mapped for the kernel's per-process stack.
pub const KSTACK_DEF_PAGE: u64 = 8;

/// Bytes initially mapped for the kernel's per-process stack.
pub const KSTACK_DEF_SIZE: u64 = KSTACK_DEF_PAGE * 0x1000;

/// Bottom of the kernel stack's initial mapping.
pub const KSTACK_INIT_BOT: u64 = KSTACK_MAX - KSTACK_DEF_SIZE;

/// Initial kernel stack pointer.
pub const KSTACK_INIT_TOP: u64 = KSTACK_MAX - 8;

/// Lifecycle state of a process.
#[derive(Clone, Copy, PartialEq, Eq, Structural, Debug)]
pub enum ProgramStatus {
    Running,
    Ready,
    Blocked,
    Dead,
}

/// The scheduler's steady state as seen between ticks: core `cpu` is the
/// only busy core, the process it names exists, is Running or has just
/// exited (Dead), and no other process is Running.
pub open spec fn sched_ok(m: ProcessManager, procs: Processors, cpu: int) -> bool {
    &&& m.wf()
    &&& procs.wf()
    &&& 0 <= cpu < MAX_CPU_COUNT
    &&& procs.slots@[cpu].current != 0
    &&& forall|j: int| 0 <= j < procs.slots@.len() && j != cpu
        ==> (#[trigger] procs.slots@[j]).current == 0
    &&& m.contains(procs.slots@[cpu].current)
    &&& (m.proc_of(procs.slots@[cpu].current).inner.status is Running
        || m.proc_of(procs.slots@[cpu].current).inner.status is Dead)
    &&& forall|p: u16| #[trigger] m.contains(p) && p != procs.slots@[cpu].current
        ==> !(m.proc_of(p).inner.status is Running)
}

/// The live scheduler state: exactly one core busy, and the process it
/// names is Running — the state every tick re-establishes.
pub open spec fn sched_live(m: ProcessManager, procs: Processors, cpu: int) -> bool {
    &&& sched_ok(m, procs, cpu)
    &&& m.proc_of(procs.slots@[cpu].current).inner.status is Running
}

/// While the scheduler is live, exactly one core claims a process, that
/// process is Running, and it is the only Running process in the table.
pub proof fn lemma_single_running(m: ProcessManager, procs: Processors, cpu: int)
    requires
        sched_live(m, procs, cpu),
    ensures
        procs.slots@[cpu].current != 0,
        forall|j: int| 0 <= j < procs.slots@.len() && j != cpu
            ==> (#[trigger] procs.slots@[j]).current == 0,
        m.contains(procs.slots@[cpu].current),
        m.proc_of(procs.slots@[cpu].current).inner.status is Running,
        forall|p: u16| #[trigger] m.contains(p) && m.proc_of(p).inner.status is Running
            ==> p == procs.slots@[cpu].current,
{
}

/// A Dead process always carries an exit code.
pub proof fn lemma_dead_has_exit_code(m: ProcessManager, p: u16)
    requires
        m.wf(),
        m.contains(p),
        m.proc_of(p).inner.status is Dead,
    ensures
        m.proc_of(p).inner.exit_code is Some,
{
}

/// Whatever the queue holds, the scheduler's scan only ever selects a
/// process that exists and is Ready — so a Dead process is never selected.
pub proof fn lemma_dead_never_selected(m: Map<u16, Process>, q: Seq<u16>, p: u16)
    requires
        spec_first_ready(m, q) == Some(p),
    ensures
        m.contains_key(p),
        m[p].inner.status is Ready,
        !(m[p].inner.status is Dead),
    decreases q.len(),
{
    if q.len() > 0 {
        if m.contains_key(q[0]) && m[q[0]].inner.status is Ready {
        } else {
            lemma_dead_never_selected(m, q.drop_first(), p);
        }
    }
}

/// The ticks a process shows after one tick is counted against it.
pub open spec fn spec_ticked(t: usize) -> usize {
    if t < usize::MAX {
        (t + 1) as usize
    } else {
        0
    }
}

/// The state a Running process is left in when the tick freezes `ctx` into
/// it: one more tick counted, context saved, Ready.
pub open spec fn spec_saved(p: Process, ctx: ProcessContextValue) -> Process {
    Process {
        pid: p.pid,
        inner: ProcessInner {
            ticks_passed: spec_ticked(p.inner.ticks_passed),
            status: ProgramStatus::Ready,
            context: ProcessContext { value: ctx },
            ..p.inner
        },
    }
}

/// The state a Dead process is left in by a tick: only the tick counted.
pub open spec fn spec_tick_only(p: Process) -> Process {
    Process {
        pid: p.pid,
        inner: ProcessInner { ticks_passed: spec_ticked(p.inner.ticks_passed), ..p.inner },
    }
}

/// Set up the process subsystem: create the kernel process (PID 1) around
/// the boot page table, with the kernel stack range recorded, mark it
/// Running, and claim core `cpu` for it.
pub fn init(
    kernel_page_table: PageTableContext,
    counter: &mut PidCounter,
    processors: &mut Processors,
    cpu: usize,
) -> (r: ProcessManager)
    requires
        old(counter).wf(),
        old(counter).next == 1,
        kernel_page_table.wf(),
        old(processors).wf(),
        cpu < MAX_CPU_COUNT,
    ensures
        final(counter).wf(),
        final(counter).next == 2,
        final(processors).wf(),
        final(processors).slots@ == old(processors).slots@.update(
            cpu as int,
            crate::processor::Processor { current: KERNEL_PID },
        ),
        (forall|j: int| 0 <= j < old(processors).slots@.len() && j != cpu
            ==> (#[trigger] old(processors).slots@[j]).current == 0)
            ==> sched_live(r, *final(processors), cpu as int),
        r.wf(),
        r.contains(KERNEL_PID),
        r.pids@ == seq![KERNEL_PID],
        r.ready_queue@ == Seq::<u16>::empty(),
        ({
            let k = r.proc_of(KERNEL_PID);
            &&& k.pid.0 == KERNEL_PID
            &&& k.inner.name@ == crate::process::spec_ascii_lower("kernel"@)
            &&& k.inner.status is Running
            &&& k.inner.exit_code is None
            &&& k.inner.ticks_passed == 0
            &&& k.inner.parent is None
            &&& k.inner.page_table == Some(kernel_page_table)
            &&& k.inner.context.value() == ProcessContextValue::spec_initial()
            &&& k.inner.proc_data matches Some(d) && {
                &&& d.env@.len() == 0
                &&& d.stack_segment == Some(crate::memory::PageRange {
                    start: KSTACK_INIT_BOT,
                    end: KSTACK_MAX,
                })
            }
        }),
{
    let mut kproc_data = ProcessData::new();
    kproc_data.set_stack(KSTACK_INIT_BOT, KSTACK_DEF_PAGE);
    let name = "kernel".to_owned();
    let mut kproc = Process::new(counter, name, None, kernel_page_table, Some(kproc_data));
    kproc.inner.resume();
    crate::processor::set_pid(processors, cpu, kproc.pid());
    let r = ProcessManager::new(kproc);
    proof {
        assert(KSTACK_INIT_BOT % 4096 == 0);
        assert(KSTACK_INIT_BOT + KSTACK_DEF_PAGE * 4096 == KSTACK_MAX);
    }
    r
}

/// One timer tick: freeze `context` into the interrupted process (counting
/// its tick and re-queueing it unless it is Dead), then thaw the next Ready
/// process — or the kernel process when none is queued — into `context` and
/// claim the core for it. Returns the PID now running.
pub fn switch(
    context: &mut ProcessContext,
    manager: &mut ProcessManager,
    processors: &mut Processors,
    cpu: usize,
) -> (r: ProcessId)
    requires
        sched_ok(*old(manager), *old(processors), cpu as int),
    ensures
        sched_live(*final(manager), *final(processors), cpu as int),
        final(processors).slots@ == old(processors).slots@.update(
            cpu as int,
            crate::processor::Processor { current: r.0 },
        ),
        ({
            // the state right after the interrupted process was frozen
            let cur0 = old(processors).slots@[cpu as int].current;
            let p0 = old(manager).proc_of(cur0);
            let dead = p0.inner.status is Dead;
            let mid_map = old(manager).processes@.insert(
                cur0,
                if dead {
                    spec_tick_only(p0)
                } else {
                    spec_saved(p0, old(context).value())
                },
            );
            let mid_queue = if dead {
                old(manager).ready_queue@
            } else {
                old(manager).ready_queue@.push(cur0)
            };
            &&& r.0 == match spec_first_ready(mid_map, mid_queue) {
                Some(p) => p,
                None => KERNEL_PID,
            }
            &&& mid_map.contains_key(r.0)
            &&& mid_map[r.0].inner.status is Ready
            &&& final(context).value() == mid_map[r.0].inner.context.value()
            &&& final(manager).ready_queue@ == spec_queue_after(mid_map, mid_queue)
            &&& final(manager).processes@ == mid_map.insert(
                r.0,
                Process {
                    pid: mid_map[r.0].pid,
                    inner: ProcessInner { status: ProgramStatus::Running, ..mid_map[r.0].inner },
                },
            )
            &&& final(manager).pids == old(manager).pids
            // a process that yields this tick and is picked again gets its
            // own context back unchanged
            &&& (r.0 == cur0 && !dead ==> final(context).value() == old(context).value())
        }),
{
    let ghost cur0 = processors.slots@[cpu as int].current;
    manager.save_current(context, processors, cpu);
    proof {
        let p0 = old(manager).proc_of(cur0);
        if p0.inner.status is Dead {
            assert(manager.proc_of(cur0) == spec_tick_only(p0));
        } else {
            assert(manager.proc_of(cur0) == spec_saved(p0, old(context).value()));
        }
        // the kernel process is Ready whenever the queue scan comes up empty
        if spec_first_ready(manager.processes@, manager.ready_queue@) is None {
            if cur0 == KERNEL_PID {
                assert(manager.ready_queue@.last() == KERNEL_PID);
                assert(manager.ready_queue@.contains(KERNEL_PID));
                lemma_first_ready_finds_member(
                    manager.processes@,
                    manager.ready_queue@,
                    KERNEL_PID,
                );
            } else {
                assert(old(manager).contains(KERNEL_PID));
                assert(!(old(manager).proc_of(KERNEL_PID).inner.status is Running));
                assert(manager.proc_of(KERNEL_PID).inner.status is Ready);
            }
        }
    }
    let r = manager.switch_next(context, processors, cpu);
    proof {
        assert(processors.slots@[cpu as int].current == r.0);
        assert forall|j: int| 0 <= j < processors.slots@.len() && j != cpu as int
            implies (#[trigger] processors.slots@[j]).current == 0 by {
            assert(processors.slots@[j] == old(processors).slots@[j]);
        }
        assert(manager.contains(r.0) && manager.proc_of(r.0).wf());
        assert(r.0 != 0);
        assert forall|p: u16| #[trigger] manager.contains(p) && p != r.0
            implies !(manager.proc_of(p).inner.status is Running) by {
            if p != cur0 {
                assert(old(manager).contains(p));
                assert(!(old(manager).proc_of(p).inner.status is Running));
            }
        }
    }
    r
}

/// If some queued PID's process is Ready, the scan does not come up empty.
proof fn lemma_first_ready_finds_member(m: Map<u16, Process>, q: Seq<u16>, p: u16)
    requires
        q.contains(p),
        m.contains_key(p),
        m[p].inner.status is Ready,
    ensures
        spec_first_ready(m, q) is Some,
    decreases q.len(),
{
    if q.len() > 0 {
        if m.contains_key(q[0]) && m[q[0]].inner.status is Ready {
        } else {
            assert(q[0] != p);
            let i = choose|i: int| 0 <= i < q.len() && q[i] == p;
            assert(q.drop_first()[i - 1] == p);
            lemma_first_ready_finds_member(m, q.drop_first(), p);
        }
    }
}

/// Terminate the process running on core `cpu` with exit code `ret`: it
/// becomes Dead, its resources are dropped, and it will never be selected
/// again. The core then halts until the next tick switches away from it
/// (the halt loop lives with the hardware, outside this crate).
pub fn process_exit(
    manager: &mut ProcessManager,
    processors: &Processors,
    cpu: usize,
    ret: isize,
)
    requires
        sched_live(*old(manager), *processors, cpu as int),
        processors.slots@[cpu as int].current != KERNEL_PID,
    ensures
        sched_ok(*final(manager), *processors, cpu as int),
        ({
            let cur = processors.slots@[cpu as int].current;
            &&& final(manager).proc_of(cur) == (Process {
                pid: old(manager).proc_of(cur).pid,
                inner: ProcessInner {
                    status: ProgramStatus::Dead,
                    exit_code: Some(ret),
                    page_table: None,
                    proc_data: None,
                    ..old(manager).proc_of(cur).inner
                },
            })
            &&& final(manager).processes@ == old(manager).processes@.insert(
                cur,
                final(manager).proc_of(cur),
            )
            &&& final(manager).pids == old(manager).pids
            &&& final(manager).ready_queue == old(manager).ready_queue
        }),
{
    proof {
        let cur = processors.slots@[cpu as int].current;
        assert(old(manager).contains(cur));
        assert(old(manager).proc_of(cur).inner.status is Running);
    }
    manager.kill_current(processors, cpu, ret);
    proof {
        let cur = processors.slots@[cpu as int].current;
        assert(manager.contains(cur));
        assert forall|p: u16| #[trigger] manager.contains(p) && p != cur
            implies !(manager.proc_of(p).inner.status is Running) by {
            assert(old(manager).contains(p));
        }
    }
}

/// The value bound to `key` in the running process's environment.
pub fn env(
    manager: &ProcessManager,
    processors: &Processors,
    cpu: usize,
    key: &String,
) -> (r: Option<String>)
    requires
        sched_live(*manager, *processors, cpu as int),
    ensures
        ({
            let cur = processors.slots@[cpu as int].current;
            let env = manager.proc_of(cur).inner.proc_data.unwrap().env@;
            match r {
                Some(v) => spec_env_lookup(env, key@) == Some(v@),
                None => spec_env_lookup(env, key@) is None,
            }
        }),
{
    let cur = crate::processor::get_pid(processors, cpu);
    let proc = manager.current(cur);
    match &proc.read().proc_data {
        Some(d) => d.env(key),
        None => vstd::pervasive::unreached(),
    }
}

} // verus!
