//! The process table and the round-robin scheduler.
//!
//! `ProcessManager` owns every process, keyed by PID, plus the FIFO ready
//! queue. Its invariants: every queued PID is in the table, every table
//! entry is keyed by its own PID and internally well formed, and the kernel
//! process (PID 1) exists and is always Ready or Running. A PID is enqueued only while
//! its process is Ready; a tick that pops a PID restores it only if it still
//! is, and skips it otherwise, so a Dead process is never scheduled again.

use vstd::prelude::*;

use std::collections::BTreeMap;
use std::collections::VecDeque;

use crate::context::ProcessContext;
use crate::data::ProcessData;
use crate::memory::{map_range, page_at, page_base, spec_page_base, BootFrameAllocator, PageRange, PAGE_SIZE};
use crate::pid::{PidCounter, ProcessId, KERNEL_PID};
use crate::proc::{ProgramStatus, STACK_DEF_PAGE, STACK_DEF_SIZE};
use crate::process::{spec_ascii_lower, spec_stack_bot, spec_stack_top, Process, ProcessInner};

verus! {

broadcast use vstd::laws_cmp::group_laws_cmp;

/// Bit 0 of the page-fault error code: set when the fault was a permission
/// violation rather than a non-present page.
pub const PF_ERR_PROTECTION_VIOLATION: u64 = 1;

/// The first PID in `q` whose process exists and is Ready, scanning from
/// the front.
pub open spec fn spec_first_ready(m: Map<u16, Process>, q: Seq<u16>) -> Option<u16>
    decreases q.len(),
{
    if q.len() == 0 {
        None
    } else if m.contains_key(q[0]) && m[q[0]].inner.status is Ready {
        Some(q[0])
    } else {
        spec_first_ready(m, q.drop_first())
    }
}

/// What remains of `q` after the scheduler's scan: everything behind the
/// first Ready entry, or nothing if there was none.
pub open spec fn spec_queue_after(m: Map<u16, Process>, q: Seq<u16>) -> Seq<u16>
    decreases q.len(),
{
    if q.len() == 0 {
        q
    } else if m.contains_key(q[0]) && m[q[0]].inner.status is Ready {
        q.drop_first()
    } else {
        spec_queue_after(m, q.drop_first())
    }
}

/// One line of the diagnostic process listing.
pub struct ProcessRow {
    pub pid: u16,
    /// Parent PID, `0` if the process has none.
    pub ppid: u16,
    pub name: String,
    pub ticks_passed: usize,
    pub status: ProgramStatus,
}

/// The process table and ready queue.
pub struct ProcessManager {
    /// Every process, keyed by its PID.
    pub processes: BTreeMap<u16, Process>,
    /// The table's keys in insertion order (for deterministic listings).
    pub pids: Vec<u16>,
    /// FIFO of PIDs eligible to run.
    pub ready_queue: VecDeque<u16>,
}

impl ProcessManager {
    /// Whether `pid` has an entry in the table.
    pub open spec fn contains(self, pid: u16) -> bool {
        self.processes@.contains_key(pid)
    }

    /// The process entered under `pid`.
    pub open spec fn proc_of(self, pid: u16) -> Process {
        self.processes@[pid]
    }

    /// Table and queue invariants; see the module description.
    pub open spec fn wf(self) -> bool {
        &&& forall|p: u16| #[trigger] self.processes@.contains_key(p)
            ==> self.processes@[p].pid.0 == p && self.processes@[p].wf()
        &&& self.pids@.no_duplicates()
        &&& forall|i: int| 0 <= i < self.pids@.len()
            ==> self.processes@.contains_key(#[trigger] self.pids@[i])
        &&& forall|p: u16| #[trigger] self.processes@.contains_key(p) ==> self.pids@.contains(p)
        &&& self.processes@.contains_key(KERNEL_PID)
        &&& (self.processes@[KERNEL_PID].inner.status is Ready
            || self.processes@[KERNEL_PID].inner.status is Running)
        &&& forall|i: int| 0 <= i < self.ready_queue@.len()
            ==> self.processes@.contains_key(#[trigger] self.ready_queue@[i])
    }

    /// A manager holding only the kernel process, with an empty ready
    /// queue.
    pub fn new(init: Process) -> (r: ProcessManager)
        requires
            init.wf(),
            init.pid.0 == KERNEL_PID,
            init.inner.status is Ready || init.inner.status is Running,
        ensures
            r.wf(),
            r.processes@ == Map::<u16, Process>::empty().insert(KERNEL_PID, init),
            r.pids@ == seq![KERNEL_PID],
            r.ready_queue@ == Seq::<u16>::empty(),
    {
        let mut processes: BTreeMap<u16, Process> = BTreeMap::new();
        let pid = init.pid();
        processes.insert(pid.0, init);
        let mut pids: Vec<u16> = Vec::new();
        pids.push(pid.0);
        let ready_queue: VecDeque<u16> = VecDeque::new();
        let r = ProcessManager { processes, pids, ready_queue };
        proof {
            assert(r.pids@ =~= seq![KERNEL_PID]);
            assert(r.pids@[0] == KERNEL_PID);
        }
        r
    }

    /// Enqueue `pid` at the back of the ready queue. Only a Ready process
    /// may be enqueued.
    pub fn push_ready(&mut self, pid: ProcessId)
        requires
            old(self).wf(),
            old(self).contains(pid.0),
            old(self).proc_of(pid.0).inner.status is Ready,
        ensures
            final(self).wf(),
            final(self).ready_queue@ == old(self).ready_queue@.push(pid.0),
            final(self).processes == old(self).processes,
            final(self).pids == old(self).pids,
    {
        self.ready_queue.push_back(pid.0);
    }

    /// Enter a fresh process in the table.
    fn add_proc(&mut self, pid: ProcessId, proc: Process)
        requires
            old(self).wf(),
            !old(self).contains(pid.0),
            proc.pid == pid,
            proc.wf(),
        ensures
            final(self).wf(),
            final(self).processes@ == old(self).processes@.insert(pid.0, proc),
            final(self).pids@ == old(self).pids@.push(pid.0),
            final(self).ready_queue == old(self).ready_queue,
    {
        self.processes.insert(pid.0, proc);
        self.pids.push(pid.0);
        proof {
            assert(forall|i: int| 0 <= i < old(self).pids@.len()
                ==> self.pids@[i] == old(self).pids@[i]);
            assert(self.pids@.last() == pid.0);
            assert forall|p: u16| #[trigger] self.processes@.contains_key(p)
                implies self.pids@.contains(p) by {
                if p == pid.0 {
                    assert(self.pids@[self.pids@.len() - 1] == p);
                } else {
                    let i = choose|i: int| 0 <= i < old(self).pids@.len() && old(self).pids@[i] == p;
                    assert(self.pids@[i] == p);
                }
            }
        }
    }

    /// Look up `pid`.
    fn get_proc(&self, pid: &ProcessId) -> (r: Option<&Process>)
        requires
            self.wf(),
        ensures
            match r {
                Some(p) => self.contains(pid.0) && *p == self.proc_of(pid.0),
                None => !self.contains(pid.0),
            },
    {
        self.processes.get(&pid.0)
    }

    /// The process running on the core whose current PID is `cur`.
    pub fn current(&self, cur: ProcessId) -> (r: &Process)
        requires
            self.wf(),
            self.contains(cur.0),
        ensures
            *r == self.proc_of(cur.0),
    {
        match self.get_proc(&cur) {
            Some(p) => p,
            None => vstd::pervasive::unreached(),
        }
    }

    /// The exit code of `pid`: present exactly when the process exists, is
    /// no longer Running, and has exited.
    pub fn get_exit_code(&self, pid: ProcessId) -> (r: Option<isize>)
        requires
            self.wf(),
        ensures
            r == if self.contains(pid.0) && !(self.proc_of(pid.0).inner.status is Running) {
                self.proc_of(pid.0).inner.exit_code
            } else {
                None::<isize>
            },
    {
        match self.get_proc(&pid) {
            Some(proc) => {
                if !matches!(proc.read().status(), ProgramStatus::Running) {
                    proc.read().exit_code()
                } else {
                    None
                }
            },
            None => None,
        }
    }

    /// Freeze the running process at a tick: count the tick and, unless the
    /// process has exited, save `context` into it, mark it Ready, and put it
    /// at the back of the ready queue. A Dead process is neither saved nor
    /// re-queued.
    pub fn save_current(
        &mut self,
        context: &ProcessContext,
        processors: &crate::processor::Processors,
        cpu: usize,
    )
        requires
            old(self).wf(),
            processors.wf(),
            cpu < crate::processor::MAX_CPU_COUNT,
            processors.slots@[cpu as int].current != 0,
            old(self).contains(processors.slots@[cpu as int].current),
            old(self).proc_of(processors.slots@[cpu as int].current).inner.status is Running
                || old(self).proc_of(processors.slots@[cpu as int].current).inner.status is Dead,
        ensures
            final(self).wf(),
            final(self).pids == old(self).pids,
            ({
                let cur = processors.slots@[cpu as int].current;
                let p0 = old(self).proc_of(cur);
                let p1 = final(self).proc_of(cur);
                &&& final(self).processes@ == old(self).processes@.insert(cur, p1)
                &&& p1.pid == p0.pid
                &&& p1.inner.ticks_passed == if p0.inner.ticks_passed < usize::MAX {
                    p0.inner.ticks_passed + 1
                } else {
                    0
                }
                &&& if p0.inner.status is Dead {
                    &&& p1.inner == (ProcessInner { ticks_passed: p1.inner.ticks_passed, ..p0.inner })
                    &&& final(self).ready_queue == old(self).ready_queue
                } else {
                    &&& p1.inner == (ProcessInner {
                        ticks_passed: p1.inner.ticks_passed,
                        status: ProgramStatus::Ready,
                        context: p1.inner.context,
                        ..p0.inner
                    })
                    &&& p1.inner.context.value() == context.value()
                    &&& final(self).ready_queue@ == old(self).ready_queue@.push(cur)
                }
            }),
    {
        let cur = crate::processor::get_pid(processors, cpu);
        let mut proc = match self.processes.remove(&cur.0) {
            Some(p) => p,
            None => vstd::pervasive::unreached(),
        };
        proc.inner.tick();
        let dead = matches!(proc.inner.status(), ProgramStatus::Dead);
        if !dead {
            proc.inner.save(context);
        }
        self.processes.insert(cur.0, proc);
        proof {
            assert(self.processes@ =~= old(self).processes@.insert(cur.0, self.proc_of(cur.0)));
        }
        if !dead {
            self.push_ready(cur);
        }
    }

    /// Pick the next process: pop PIDs off the ready queue until one is
    /// still Ready, restore its context, mark it Running, and record it as
    /// current on core `cpu`. Entries whose process has disappeared or is no
    /// longer Ready are skipped and dropped; with no Ready process queued,
    /// the kernel process is restored. A Dead process is never selected.
    pub fn switch_next(
        &mut self,
        context: &mut ProcessContext,
        processors: &mut crate::processor::Processors,
        cpu: usize,
    ) -> (r: ProcessId)
        requires
            old(self).wf(),
            old(processors).wf(),
            cpu < crate::processor::MAX_CPU_COUNT,
            spec_first_ready(old(self).processes@, old(self).ready_queue@) is None
                ==> old(self).proc_of(KERNEL_PID).inner.status is Ready,
        ensures
            final(self).wf(),
            final(processors).wf(),
            r.0 == match spec_first_ready(old(self).processes@, old(self).ready_queue@) {
                Some(p) => p,
                None => KERNEL_PID,
            },
            old(self).contains(r.0),
            old(self).proc_of(r.0).inner.status is Ready,
            final(self).proc_of(r.0) == (Process {
                pid: old(self).proc_of(r.0).pid,
                inner: ProcessInner { status: ProgramStatus::Running, ..old(self).proc_of(r.0).inner },
            }),
            final(self).processes@ == old(self).processes@.insert(r.0, final(self).proc_of(r.0)),
            final(self).pids == old(self).pids,
            final(self).ready_queue@ == spec_queue_after(old(self).processes@, old(self).ready_queue@),
            final(context).value() == old(self).proc_of(r.0).inner.context.value(),
            final(processors).slots@ == old(processors).slots@.update(
                cpu as int,
                crate::processor::Processor { current: r.0 },
            ),
    {
        while self.ready_queue.len() > 0
            invariant
                self.wf(),
                self.processes == old(self).processes,
                self.pids == old(self).pids,
                *processors == *old(processors),
                processors.wf(),
                cpu < crate::processor::MAX_CPU_COUNT,
                spec_first_ready(old(self).processes@, self.ready_queue@)
                    == spec_first_ready(old(self).processes@, old(self).ready_queue@),
                spec_queue_after(old(self).processes@, self.ready_queue@)
                    == spec_queue_after(old(self).processes@, old(self).ready_queue@),
            decreases self.ready_queue@.len(),
        {
            let ghost q_pre = self.ready_queue@;
            let next = match self.ready_queue.pop_front() {
                Some(p) => p,
                None => vstd::pervasive::unreached(),
            };
            proof {
                assert(self.ready_queue@ =~= q_pre.drop_first());
            }
            let is_ready = match self.processes.get(&next) {
                Some(proc) => proc.read().is_ready(),
                None => false,
            };
            if is_ready {
                proof {
                    assert(spec_first_ready(old(self).processes@, q_pre) == Some(next));
                    assert(spec_queue_after(old(self).processes@, q_pre) == q_pre.drop_first());
                }
                crate::processor::set_pid(processors, cpu, ProcessId(next));
                let mut proc = match self.processes.remove(&next) {
                    Some(p) => p,
                    None => vstd::pervasive::unreached(),
                };
                proc.inner.restore(context);
                self.processes.insert(next, proc);
                proof {
                    assert(self.processes@ =~= old(self).processes@.insert(next, self.proc_of(next)));
                }
                return ProcessId(next);
            }
            proof {
                assert(spec_first_ready(old(self).processes@, q_pre)
                    == spec_first_ready(old(self).processes@, q_pre.drop_first()));
                assert(spec_queue_after(old(self).processes@, q_pre)
                    == spec_queue_after(old(self).processes@, q_pre.drop_first()));
            }
        }
        // no Ready process queued: fall back to the kernel process
        proof {
            assert(self.ready_queue@.len() == 0);
            assert(spec_first_ready(old(self).processes@, old(self).ready_queue@) is None);
        }
        crate::processor::set_pid(processors, cpu, ProcessId(KERNEL_PID));
        let mut proc = match self.processes.remove(&KERNEL_PID) {
            Some(p) => p,
            None => vstd::pervasive::unreached(),
        };
        proc.inner.restore(context);
        self.processes.insert(KERNEL_PID, proc);
        proof {
            assert(self.processes@ =~= old(self).processes@.insert(KERNEL_PID, self.proc_of(KERNEL_PID)));
            assert(self.ready_queue@ =~= spec_queue_after(old(self).processes@, old(self).ready_queue@));
        }
        ProcessId(KERNEL_PID)
    }

    /// Kill `pid` with exit code `ret`. A missing or already-Dead process
    /// is left untouched (the caller logs a warning); the kernel process
    /// cannot be killed.
    pub fn kill(&mut self, pid: ProcessId, ret: isize)
        requires
            old(self).wf(),
            pid.0 != KERNEL_PID,
        ensures
            final(self).wf(),
            !old(self).contains(pid.0) ==> *final(self) == *old(self),
            old(self).contains(pid.0) && old(self).proc_of(pid.0).inner.status is Dead
                ==> *final(self) == *old(self),
            old(self).contains(pid.0) && !(old(self).proc_of(pid.0).inner.status is Dead) ==> {
                &&& final(self).processes@ == old(self).processes@.insert(pid.0, final(self).proc_of(pid.0))
                &&& final(self).proc_of(pid.0) == (Process {
                    pid: old(self).proc_of(pid.0).pid,
                    inner: ProcessInner {
                        status: ProgramStatus::Dead,
                        exit_code: Some(ret),
                        page_table: None,
                        proc_data: None,
                        ..old(self).proc_of(pid.0).inner
                    },
                })
                &&& final(self).pids == old(self).pids
                &&& final(self).ready_queue == old(self).ready_queue
            },
    {
        let dead = match self.get_proc(&pid) {
            Some(proc) => matches!(proc.read().status(), ProgramStatus::Dead),
            None => {
                // process not found: warn and return
                return ;
            },
        };
        if dead {
            // already dead: warn and return
            return ;
        }
        let mut proc = match self.processes.remove(&pid.0) {
            Some(p) => p,
            None => {
                proof {
                    assert(false);
                }
                return ;
            },
        };
        proc.kill(ret);
        self.processes.insert(pid.0, proc);
        proof {
            assert(self.processes@ =~= old(self).processes@.insert(pid.0, self.proc_of(pid.0)));
        }
    }

    /// Kill the process running on core `cpu`. The kernel process never
    /// exits, so the core must be running an ordinary process.
    pub fn kill_current(
        &mut self,
        processors: &crate::processor::Processors,
        cpu: usize,
        ret: isize,
    )
        requires
            old(self).wf(),
            processors.wf(),
            cpu < crate::processor::MAX_CPU_COUNT,
            processors.slots@[cpu as int].current != 0,
            processors.slots@[cpu as int].current != KERNEL_PID,
        ensures
            final(self).wf(),
            final(self).pids == old(self).pids,
            final(self).ready_queue == old(self).ready_queue,
            ({
                let cur = processors.slots@[cpu as int].current;
                &&& (!old(self).contains(cur) ==> *final(self) == *old(self))
                &&& (old(self).contains(cur) && old(self).proc_of(cur).inner.status is Dead
                    ==> *final(self) == *old(self))
                &&& (old(self).contains(cur) && !(old(self).proc_of(cur).inner.status is Dead) ==> {
                    &&& final(self).processes@ == old(self).processes@.insert(cur, final(self).proc_of(cur))
                    &&& final(self).proc_of(cur) == (Process {
                        pid: old(self).proc_of(cur).pid,
                        inner: ProcessInner {
                            status: ProgramStatus::Dead,
                            exit_code: Some(ret),
                            page_table: None,
                            proc_data: None,
                            ..old(self).proc_of(cur).inner
                        },
                    })
                })
            }),
    {
        let cur = crate::processor::get_pid(processors, cpu);
        self.kill(cur, ret);
    }

    /// Create a kernel thread: a fresh process whose page table is cloned
    /// from the kernel's, with one stack page mapped in its PID's stack
    /// slot, whose saved context starts execution at `entry` on that stack,
    /// entered in the table and enqueued Ready.
    pub fn spawn_kernel_thread(
        &mut self,
        entry: u64,
        name: String,
        proc_data: Option<ProcessData>,
        counter: &mut PidCounter,
        frame_allocator: &mut BootFrameAllocator,
    ) -> (r: ProcessId)
        requires
            old(self).wf(),
            old(counter).wf(),
            old(counter).next < u16::MAX,
            !old(self).contains(old(counter).next),
            match proc_data {
                Some(d) => d.wf(),
                None => true,
            },
            old(frame_allocator).wf(),
            old(frame_allocator).frames@.len() >= 2 + STACK_DEF_PAGE,
            forall|k: int| 0 <= k < STACK_DEF_PAGE
                ==> old(self).proc_of(KERNEL_PID).inner.page_table.unwrap().map.spec_lookup(
                    #[trigger] page_at(spec_stack_bot(old(counter).next), k),
                ) is None,
        ensures
            final(self).wf(),
            final(counter).wf(),
            final(frame_allocator).wf(),
            r.0 == old(counter).next,
            final(counter).next == old(counter).next + 1,
            final(self).contains(r.0),
            final(self).processes@ == old(self).processes@.insert(r.0, final(self).proc_of(r.0)),
            final(self).pids@ == old(self).pids@.push(r.0),
            final(self).ready_queue@ == old(self).ready_queue@.push(r.0),
            ({
                let p = final(self).proc_of(r.0);
                &&& p.pid.0 == r.0
                &&& p.inner.name@ == spec_ascii_lower(name@)
                &&& p.inner.parent == Some(KERNEL_PID)
                &&& p.inner.status is Ready
                &&& p.inner.exit_code is None
                &&& p.inner.ticks_passed == 0
                &&& p.inner.context.value().stack_frame.instruction_pointer == entry
                &&& p.inner.context.value().stack_frame.stack_pointer == spec_stack_top(r.0)
                &&& p.inner.context.value().stack_frame.cpu_flags == crate::context::SPAWN_RFLAGS
                &&& p.inner.context.value().regs == crate::regs::RegistersValue::spec_zeroed()
                &&& p.inner.proc_data matches Some(d) && d.stack_segment == Some(PageRange {
                    start: spec_stack_bot(r.0),
                    end: (spec_stack_bot(r.0) + STACK_DEF_SIZE) as u64,
                })
                &&& match proc_data {
                    Some(d0) => p.inner.proc_data.unwrap().env == d0.env,
                    None => p.inner.proc_data.unwrap().env@.len() == 0,
                }
            }),
    {
        let page_table = match self.processes.get(&KERNEL_PID) {
            Some(kproc) => kproc.read().clone_page_table(frame_allocator),
            None => vstd::pervasive::unreached(),
        };
        let mut proc = Process::new(counter, name, Some(KERNEL_PID), page_table, proc_data);
        let pid = proc.pid();
        let stack_top = proc.alloc_init_stack(frame_allocator);
        proc.init_stack_frame(entry, stack_top);
        self.add_proc(pid, proc);
        self.push_ready(pid);
        pid
    }

    /// Decide and handle a page fault of the process running on core `cpu`,
    /// whose faulting address is `addr`.
    ///
    /// A permission violation (error-code bit 0), an address outside the
    /// process's stack slot, or a failure to map the missing pages leaves
    /// everything unchanged and reports the fault unhandled; the caller
    /// panics with a diagnostic. Otherwise the stack is grown: the pages
    /// from the fault's page up to the recorded stack base are mapped
    /// writable and the recorded range is extended downwards.
    pub fn handle_page_fault(
        &mut self,
        addr: u64,
        err_code: u64,
        processors: &crate::processor::Processors,
        cpu: usize,
        frame_allocator: &mut BootFrameAllocator,
    ) -> (r: bool)
        requires
            old(self).wf(),
            processors.wf(),
            cpu < crate::processor::MAX_CPU_COUNT,
            processors.slots@[cpu as int].current != 0,
            old(self).contains(processors.slots@[cpu as int].current),
            old(self).proc_of(processors.slots@[cpu as int].current).inner.status is Running,
            old(frame_allocator).wf(),
        ensures
            final(self).wf(),
            final(frame_allocator).wf(),
            final(self).pids == old(self).pids,
            final(self).ready_queue == old(self).ready_queue,
            !r ==> final(self).processes@ == old(self).processes@
                && *final(frame_allocator) == *old(frame_allocator),
            err_code & PF_ERR_PROTECTION_VIOLATION != 0 ==> !r,
            ({
                let cur = processors.slots@[cpu as int].current;
                let p0 = old(self).proc_of(cur);
                let on_stack = match p0.inner.proc_data.unwrap().stack_segment {
                    Some(rg) => (addr & crate::proc::STACK_START_MASK)
                        == (rg.start & crate::proc::STACK_START_MASK),
                    None => false,
                };
                &&& (err_code & PF_ERR_PROTECTION_VIOLATION == 0 && !on_stack ==> !r)
                &&& (r ==> err_code & PF_ERR_PROTECTION_VIOLATION == 0 && on_stack)
                &&& (r ==> {
                    let rg0 = p0.inner.proc_data.unwrap().stack_segment.unwrap();
                    let new_start = if spec_page_base(addr) < rg0.start {
                        spec_page_base(addr)
                    } else {
                        rg0.start
                    };
                    let p1 = final(self).proc_of(cur);
                    &&& final(self).processes@ == old(self).processes@.insert(cur, p1)
                    &&& p1.pid == p0.pid
                    &&& p1.inner.status == p0.inner.status
                    &&& p1.inner.proc_data matches Some(d1) && {
                        &&& d1.stack_segment == Some(PageRange { start: new_start, end: rg0.end })
                        &&& d1.env == p0.inner.proc_data.unwrap().env
                    }
                    &&& p1.inner.page_table matches Some(pt1) && {
                        &&& pt1.wf()
                        &&& forall|k: int| 0 <= k < (rg0.start - new_start) / (PAGE_SIZE as int)
                            ==> pt1.map.spec_lookup(#[trigger] page_at(new_start, k)) is Some
                        &&& forall|w: u64| !(new_start <= w < rg0.start)
                            ==> pt1.map.spec_lookup(w)
                                == p0.inner.page_table.unwrap().map.spec_lookup(w)
                    }
                })
                // when the fault is recoverable and resources suffice, it is handled
                &&& ({
                    let rg0 = p0.inner.proc_data.unwrap().stack_segment.unwrap();
                    let count = (rg0.start - spec_page_base(addr)) / (PAGE_SIZE as int);
                    let can_grow = spec_page_base(addr) >= rg0.start
                        || (count <= old(frame_allocator).frames@.len()
                            && (forall|k: int| 0 <= k < count
                                ==> p0.inner.page_table.unwrap().map.spec_lookup(
                                    #[trigger] page_at(spec_page_base(addr), k),
                                ) is None));
                    err_code & PF_ERR_PROTECTION_VIOLATION == 0 && on_stack && can_grow ==> r
                })
            }),
    {
        if err_code & PF_ERR_PROTECTION_VIOLATION != 0 {
            return false;
        }
        let cur = crate::processor::get_pid(processors, cpu);
        let (on_stack, range) = match self.processes.get(&cur.0) {
            Some(p) => match &p.inner.proc_data {
                Some(d) => (d.is_on_stack(addr), d.stack_segment),
                None => vstd::pervasive::unreached(),
            },
            None => vstd::pervasive::unreached(),
        };
        if !on_stack {
            return false;
        }
        let rg = match range {
            Some(rg) => rg,
            None => vstd::pervasive::unreached(),
        };
        let new_start = page_base(addr);
        if new_start >= rg.start {
            // the fault's page is already inside the recorded range
            proof {
                assert(self.processes@.insert(cur.0, self.processes@[cur.0]) =~= self.processes@);
            }
            return true;
        }
        let mut proc = match self.processes.remove(&cur.0) {
            Some(p) => p,
            None => vstd::pervasive::unreached(),
        };
        let ghost proc0 = proc;
        let count = (rg.start - new_start) / PAGE_SIZE;
        proof {
            assert((rg.start - new_start) % 4096 == 0) by (nonlinear_arith)
                requires
                    rg.start % 4096 == 0,
                    new_start % 4096 == 0,
                    new_start < rg.start,
            ;
            assert(count * (PAGE_SIZE as int) == rg.start - new_start) by (nonlinear_arith)
                requires
                    count == (rg.start - new_start) / 4096,
                    (rg.start - new_start) % 4096 == 0,
                    new_start < rg.start,
            ;
        }
        let table_opt = proc.inner.page_table;
        proc.inner.page_table = None;
        let mut table = match table_opt {
            Some(t) => t,
            None => vstd::pervasive::unreached(),
        };
        let ghost table_before = table.map;
        let grown = match map_range(&mut table.map, new_start, count, frame_allocator) {
            Ok(range2) => {
                proof {
                    assert forall|w: u64| !(new_start <= w < rg.start)
                        implies table.map.spec_lookup(w) == table_before.spec_lookup(w) by {
                        assert(!range2.spec_contains(w));
                    }
                }
                true
            },
            Err(_) => false,
        };
        proc.inner.page_table = Some(table);
        if grown {
            match &mut proc.inner.proc_data {
                Some(d) => {
                    d.stack_segment = Some(PageRange { start: new_start, end: rg.end });
                },
                None => vstd::pervasive::unreached(),
            }
        }
        self.processes.insert(cur.0, proc);
        proof {
            if grown {
                assert(self.processes@ =~= old(self).processes@.insert(cur.0, self.proc_of(cur.0)));
            } else {
                assert(proc == proc0);
                assert(self.processes@ =~= old(self).processes@);
            }
        }
        grown
    }

    /// The diagnostic process listing: one row per process that is not
    /// Dead, in the order processes were created.
    pub fn print_process_list(&self) -> (r: Vec<ProcessRow>)
        requires
            self.wf(),
        ensures
            r@ == spec_process_rows(self.processes@, self.pids@),
    {
        let mut rows: Vec<ProcessRow> = Vec::new();
        let n = self.pids.len();
        let mut i: usize = 0;
        while i < n
            invariant
                self.wf(),
                n == self.pids@.len(),
                i <= n,
                rows@ == spec_process_rows(self.processes@, self.pids@.take(i as int)),
            decreases n - i,
        {
            let pid = self.pids[i];
            proof {
                assert(self.pids@.take(i + 1).drop_last() =~= self.pids@.take(i as int));
                assert(self.pids@.take(i + 1).last() == self.pids@[i as int]);
            }
            match self.processes.get(&pid) {
                Some(proc) => {
                    if !matches!(proc.read().status(), ProgramStatus::Dead) {
                        let inner = proc.read();
                        let ppid = match inner.parent() {
                            Some(q) => q,
                            None => 0,
                        };
                        let row = ProcessRow {
                            pid,
                            ppid,
                            name: inner.name().clone(),
                            ticks_passed: inner.ticks_passed,
                            status: inner.status(),
                        };
                        rows.push(row);
                    }
                },
                None => {
                    proof {
                        assert(false);
                    }
                },
            }
            i = i + 1;
        }
        proof {
            assert(self.pids@.take(n as int) =~= self.pids@);
        }
        rows
    }
}

/// Scheduling is FIFO among Ready processes: the scan selects the first
/// queued PID whose process is Ready, so a process that yields this tick
/// (and is queued at the back) runs no earlier than any Ready process
/// queued before it.
pub proof fn lemma_fifo_selection(m: Map<u16, Process>, q: Seq<u16>, i: int)
    requires
        0 <= i < q.len(),
        m.contains_key(q[i]),
        m[q[i]].inner.status is Ready,
        forall|j: int| 0 <= j < i
            ==> !(m.contains_key(#[trigger] q[j]) && m[q[j]].inner.status is Ready),
    ensures
        spec_first_ready(m, q) == Some(q[i]),
    decreases i,
{
    if i > 0 {
        assert(!(m.contains_key(q[0]) && m[q[0]].inner.status is Ready));
        assert(q.drop_first()[i - 1] == q[i]);
        assert forall|j: int| 0 <= j < i - 1
            implies !(m.contains_key(#[trigger] q.drop_first()[j])
                && m[q.drop_first()[j]].inner.status is Ready) by {
            assert(q.drop_first()[j] == q[j + 1]);
        }
        lemma_fifo_selection(m, q.drop_first(), i - 1);
    }
}

/// Every PID sitting in the ready queue has an entry in the process table
/// (a PID is enqueued only while its process is Ready; the entry outlives
/// the queue slot even if the process is killed while queued).
pub proof fn lemma_queue_members_exist(m: ProcessManager, i: int)
    requires
        m.wf(),
        0 <= i < m.ready_queue@.len(),
    ensures
        m.contains(m.ready_queue@[i]),
{
}

/// The row describing process `p`.
pub open spec fn spec_row_of(p: Process) -> ProcessRow {
    ProcessRow {
        pid: p.pid.0,
        ppid: match p.inner.parent {
            Some(q) => q,
            None => 0,
        },
        name: p.inner.name,
        ticks_passed: p.inner.ticks_passed,
        status: p.inner.status,
    }
}

/// The listing rows: for each PID in `pids` whose process exists and is not
/// Dead, its row, in order.
pub open spec fn spec_process_rows(m: Map<u16, Process>, pids: Seq<u16>) -> Seq<ProcessRow>
    decreases pids.len(),
{
    if pids.len() == 0 {
        Seq::empty()
    } else {
        let rest = spec_process_rows(m, pids.drop_last());
        let p = pids.last();
        if m.contains_key(p) && !(m[p].inner.status is Dead) {
            rest.push(spec_row_of(m[p]))
        } else {
            rest
        }
    }
}

} // verus!
