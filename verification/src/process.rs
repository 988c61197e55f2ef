//! Process objects: identity, saved context, page table, and lifecycle.
//!
//! A process is created Ready with a zeroed context and a cloned top-level
//! page table; `save`/`restore` move its context across a timer tick; `kill`
//! marks it Dead, records the exit code, and drops its owned resources.
//! Stack slots are assigned by PID: the initial stack of process `p` is the
//! page ending just below `STACK_INIT_TOP - p * STACK_DEF_SIZE`.

use vstd::prelude::*;

use crate::context::{ProcessContext, ProcessContextValue};
use crate::data::ProcessData;
use crate::memory::{map_range, page_at, BootFrameAllocator, PageRange};
use crate::paging::PageTableContext;
use crate::pid::{PidCounter, ProcessId};
use crate::proc::{ProgramStatus, STACK_DEF_PAGE, STACK_DEF_SIZE, STACK_INIT_BOT, STACK_INIT_TOP};

verus! {

/// ASCII case folding of one character: `A`..`Z` map to `a`..`z`, everything
/// else is unchanged.
pub open spec fn ascii_lower_char(c: char) -> char {
    if 'A' <= c && c <= 'Z' {
        ((c as u32) + 32) as char
    } else {
        c
    }
}

/// ASCII case folding of a whole string.
pub open spec fn spec_ascii_lower(s: Seq<char>) -> Seq<char> {
    s.map_values(|c: char| ascii_lower_char(c))
}

/// Relies on `str::to_ascii_lowercase`: ASCII uppercase letters are mapped
/// to their lowercase equivalents, all other characters are unchanged.
#[verifier::external_body]
fn ascii_lowercase(s: &str) -> (r: String)
    ensures
        r@ == spec_ascii_lower(s@),
{
    s.to_ascii_lowercase()
}

/// Bottom of the initial stack mapping of process `pid`.
pub open spec fn spec_stack_bot(pid: u16) -> u64 {
    (STACK_INIT_BOT - pid * STACK_DEF_SIZE) as u64
}

/// Initial stack pointer of process `pid`.
pub open spec fn spec_stack_top(pid: u16) -> u64 {
    (STACK_INIT_TOP - pid * STACK_DEF_SIZE) as u64
}

/// The bookkeeping state of one process.
pub struct ProcessInner {
    pub name: String,
    /// PID of the parent process, if it has one.
    pub parent: Option<u16>,
    /// PIDs of the children.
    pub children: Vec<u16>,
    pub ticks_passed: usize,
    pub status: ProgramStatus,
    pub exit_code: Option<isize>,
    pub context: ProcessContext,
    pub page_table: Option<PageTableContext>,
    pub proc_data: Option<ProcessData>,
}

impl ProcessInner {
    /// A process is Dead exactly when it has an exit code, and owns a page
    /// table and process data for as long as it lives.
    pub open spec fn wf(self) -> bool {
        &&& (self.status is Dead <==> self.exit_code is Some)
        &&& (!(self.status is Dead) ==> self.page_table is Some && self.proc_data is Some)
        &&& match self.page_table {
            Some(pt) => pt.wf(),
            None => true,
        }
        &&& match self.proc_data {
            Some(d) => d.wf(),
            None => true,
        }
    }

    pub fn name(&self) -> (r: &String)
        ensures
            r == &self.name,
    {
        &self.name
    }

    /// Count one scheduler tick against this process (wrapping at the top).
    pub fn tick(&mut self)
        ensures
            final(self).ticks_passed == if old(self).ticks_passed < usize::MAX {
                old(self).ticks_passed + 1
            } else {
                0
            },
            *final(self) == (ProcessInner { ticks_passed: final(self).ticks_passed, ..*old(self) }),
    {
        self.ticks_passed = if self.ticks_passed < usize::MAX {
            self.ticks_passed + 1
        } else {
            0
        };
    }

    pub fn status(&self) -> (r: ProgramStatus)
        ensures
            r == self.status,
    {
        self.status
    }

    /// Mark Ready (the state a preempted process returns to).
    pub fn pause(&mut self)
        requires
            !(old(self).status is Dead),
        ensures
            *final(self) == (ProcessInner { status: ProgramStatus::Ready, ..*old(self) }),
            old(self).wf() ==> final(self).wf(),
    {
        self.status = ProgramStatus::Ready;
    }

    /// Mark Running (the state entered when the context is restored).
    pub fn resume(&mut self)
        requires
            !(old(self).status is Dead),
        ensures
            *final(self) == (ProcessInner { status: ProgramStatus::Running, ..*old(self) }),
            old(self).wf() ==> final(self).wf(),
    {
        self.status = ProgramStatus::Running;
    }

    pub fn exit_code(&self) -> (r: Option<isize>)
        ensures
            r == self.exit_code,
    {
        self.exit_code
    }

    /// Clone this process's top-level page table into a fresh frame.
    pub fn clone_page_table(&self, frame_allocator: &mut BootFrameAllocator) -> (r: PageTableContext)
        requires
            self.wf(),
            self.page_table is Some,
            old(frame_allocator).wf(),
            old(frame_allocator).frames@.len() > 0,
        ensures
            final(frame_allocator).wf(),
            final(frame_allocator).frames@ == old(frame_allocator).frames@.drop_last(),
            r.wf(),
            r.reg.addr == old(frame_allocator).frames@.last(),
            r.reg.flags == 0,
            r.map.entries@ == self.page_table.unwrap().map.entries@,
    {
        match &self.page_table {
            Some(pt) => pt.clone_l4(frame_allocator),
            None => {
                proof {
                    assert(false);
                }
                PageTableContext::new(crate::paging::Cr3RegValue { addr: 0, flags: 0 }, crate::memory::PageMap::new())
            },
        }
    }

    pub fn is_ready(&self) -> (r: bool)
        ensures
            r == (self.status is Ready),
    {
        matches!(self.status, ProgramStatus::Ready)
    }

    /// Freeze `context` into this process and mark it Ready.
    pub fn save(&mut self, context: &ProcessContext)
        requires
            !(old(self).status is Dead),
        ensures
            *final(self) == (ProcessInner {
                status: ProgramStatus::Ready,
                context: final(self).context,
                ..*old(self)
            }),
            final(self).context.value() == context.value(),
            old(self).wf() ==> final(self).wf(),
    {
        self.pause();
        self.context.save(context);
    }

    /// Thaw this process's saved context into `context` and mark it
    /// Running. The caller loads the page-table root into CR3 if it
    /// changed.
    pub fn restore(&mut self, context: &mut ProcessContext)
        requires
            old(self).status is Ready,
            old(self).wf(),
        ensures
            *final(self) == (ProcessInner { status: ProgramStatus::Running, ..*old(self) }),
            final(context).value() == old(self).context.value(),
            final(self).wf(),
    {
        self.resume();
        self.context.restore(context);
    }

    pub fn parent(&self) -> (r: Option<u16>)
        ensures
            r == self.parent,
    {
        self.parent
    }

    /// Mark Dead with the given exit code and drop the owned resources
    /// (page table and process data).
    pub fn kill(&mut self, ret: isize)
        ensures
            *final(self) == (ProcessInner {
                status: ProgramStatus::Dead,
                exit_code: Some(ret),
                page_table: None,
                proc_data: None,
                ..*old(self)
            }),
            final(self).wf(),
    {
        self.exit_code = Some(ret);
        self.status = ProgramStatus::Dead;
        self.page_table = None;
        self.proc_data = None;
    }
}

/// A process: its identifier plus all mutable state.
pub struct Process {
    pub pid: ProcessId,
    pub inner: ProcessInner,
}

impl Process {
    pub open spec fn wf(self) -> bool {
        &&& self.pid.0 >= 1
        &&& self.inner.wf()
    }

    pub fn pid(&self) -> (r: ProcessId)
        ensures
            r == self.pid,
    {
        self.pid
    }

    /// Shared view of the process state.
    pub fn read(&self) -> (r: &ProcessInner)
        ensures
            r == &self.inner,
    {
        &self.inner
    }

    /// Exclusive view of the process state.
    pub fn write(&mut self) -> (r: &mut ProcessInner)
        ensures
            *r == old(self).inner,
            *final(self) == (Process { pid: old(self).pid, inner: *final(r) }),
    {
        &mut self.inner
    }

    /// Create a process: fresh PID, lowercased name, Ready, zeroed context,
    /// the given page table, and the given data (or empty data).
    pub fn new(
        counter: &mut PidCounter,
        name: String,
        parent: Option<u16>,
        page_table: PageTableContext,
        proc_data: Option<ProcessData>,
    ) -> (r: Process)
        requires
            old(counter).wf(),
            old(counter).next < u16::MAX,
            page_table.wf(),
            match proc_data {
                Some(d) => d.wf(),
                None => true,
            },
        ensures
            final(counter).wf(),
            final(counter).next == old(counter).next + 1,
            r.pid.0 == old(counter).next,
            r.inner.name@ == spec_ascii_lower(name@),
            r.inner.parent == parent,
            r.inner.children@.len() == 0,
            r.inner.ticks_passed == 0,
            r.inner.status is Ready,
            r.inner.exit_code is None,
            r.inner.context.value() == ProcessContextValue::spec_initial(),
            r.inner.page_table == Some(page_table),
            match proc_data {
                Some(d) => r.inner.proc_data == Some(d),
                None => r.inner.proc_data matches Some(d2) && d2.env@.len() == 0
                    && d2.stack_segment is None,
            },
            r.wf(),
    {
        let name = ascii_lowercase(name.as_str());
        let pid = ProcessId::new(counter);
        let data = match proc_data {
            Some(d) => d,
            None => ProcessData::new(),
        };
        let inner = ProcessInner {
            name,
            parent,
            status: ProgramStatus::Ready,
            context: ProcessContext::new(),
            ticks_passed: 0,
            exit_code: None,
            children: Vec::new(),
            page_table: Some(page_table),
            proc_data: Some(data),
        };
        Process { pid, inner }
    }

    /// Kill this process with the given exit code.
    pub fn kill(&mut self, ret: isize)
        ensures
            *final(self) == (Process {
                pid: old(self).pid,
                inner: ProcessInner {
                    status: ProgramStatus::Dead,
                    exit_code: Some(ret),
                    page_table: None,
                    proc_data: None,
                    ..old(self).inner
                },
            }),
            final(self).inner.wf(),
    {
        self.inner.kill(ret);
    }

    /// Carve out and map this process's initial stack: clone the page
    /// table, map `STACK_DEF_PAGE` pages in the PID's stack slot, record
    /// the range, and return the initial stack pointer.
    pub fn alloc_init_stack(&mut self, frame_allocator: &mut BootFrameAllocator) -> (r: u64)
        requires
            old(self).wf(),
            !(old(self).inner.status is Dead),
            old(frame_allocator).wf(),
            old(frame_allocator).frames@.len() >= 1 + STACK_DEF_PAGE,
            forall|k: int| 0 <= k < STACK_DEF_PAGE
                ==> old(self).inner.page_table.unwrap().map.spec_lookup(
                    #[trigger] page_at(spec_stack_bot(old(self).pid.0), k),
                ) is None,
        ensures
            final(self).wf(),
            final(frame_allocator).wf(),
            final(frame_allocator).frames@.len() == old(frame_allocator).frames@.len() - 1 - STACK_DEF_PAGE,
            r == spec_stack_top(old(self).pid.0),
            final(self).pid == old(self).pid,
            final(self).inner.page_table matches Some(pt2) && {
                &&& pt2.wf()
                &&& forall|k: int| 0 <= k < STACK_DEF_PAGE
                    ==> pt2.map.spec_lookup(#[trigger] page_at(spec_stack_bot(old(self).pid.0), k)) is Some
                &&& forall|w: u64| !(spec_stack_bot(old(self).pid.0) <= w
                        < spec_stack_bot(old(self).pid.0) + STACK_DEF_SIZE)
                    ==> pt2.map.spec_lookup(w)
                        == old(self).inner.page_table.unwrap().map.spec_lookup(w)
            },
            final(self).inner.proc_data matches Some(d2) && {
                &&& d2.env == old(self).inner.proc_data.unwrap().env
                &&& d2.stack_segment == Some(PageRange {
                    start: spec_stack_bot(old(self).pid.0),
                    end: (spec_stack_bot(old(self).pid.0) + STACK_DEF_SIZE) as u64,
                })
            },
            final(self).inner == (ProcessInner {
                page_table: final(self).inner.page_table,
                proc_data: final(self).inner.proc_data,
                ..old(self).inner
            }),
    {
        let pid_val = self.pid.0 as u64;
        proof {
            assert(pid_val * 4096 <= 65535 * 4096) by (nonlinear_arith)
                requires
                    0 <= pid_val <= 65535,
            ;
        }
        let stack_top = STACK_INIT_TOP - pid_val * STACK_DEF_SIZE;
        let stack_bot = STACK_INIT_BOT - pid_val * STACK_DEF_SIZE;
        proof {
            assert(stack_bot % 4096 == 0) by (nonlinear_arith)
                requires
                    stack_bot == 0x0000_4000_0000_0000 - 0x1000 - pid_val * 0x1000,
                    0 <= pid_val <= 65535,
            ;
        }
        // replace the page table with a fresh clone of it
        let ghost table_before = self.inner.page_table.unwrap().map;
        let cloned = self.inner.clone_page_table(frame_allocator);
        let mut table = cloned;
        let ghost cloned_map = table.map;
        // map the stack pages in the clone
        let range = match map_range(&mut table.map, stack_bot, STACK_DEF_PAGE, frame_allocator) {
            Ok(range) => range,
            Err(_) => {
                // unreachable: the range is fresh and enough frames remain
                proof {
                    assert(false);
                }
                PageRange { start: 0, end: 0 }
            },
        };
        proof {
            assert(range.start == stack_bot && range.end == stack_bot + STACK_DEF_SIZE);
            assert forall|w: u64| !(stack_bot <= w < stack_bot + STACK_DEF_SIZE)
                implies table.map.spec_lookup(w) == table_before.spec_lookup(w) by {
                assert(!range.spec_contains(w));
                assert(table.map.spec_lookup(w) == cloned_map.spec_lookup(w));
            }
        }
        self.inner.page_table = Some(table);
        // record the stack range
        match &mut self.inner.proc_data {
            Some(data) => {
                data.set_stack(stack_bot, STACK_DEF_PAGE);
            },
            None => {
                proof {
                    assert(false);
                }
            },
        }
        stack_top
    }

    /// Point the saved context at a fresh thread entry.
    pub fn init_stack_frame(&mut self, entry: u64, stack_top: u64)
        ensures
            final(self).inner.context.value().stack_frame.instruction_pointer == entry,
            final(self).inner.context.value().stack_frame.stack_pointer == stack_top,
            final(self).inner.context.value().stack_frame.cpu_flags == crate::context::SPAWN_RFLAGS,
            final(self).inner.context.value().regs == old(self).inner.context.value().regs,
            *final(self) == (Process {
                pid: old(self).pid,
                inner: ProcessInner { context: final(self).inner.context, ..old(self).inner },
            }),
    {
        self.inner.context.init_stack_frame(entry, stack_top);
    }
}

} // verus!
