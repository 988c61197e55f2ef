//! Per-core bookkeeping: which process each CPU is running.
//!
//! Each slot holds the PID of the process currently executing on that core;
//! `0` means the core is idle. The table has room for four cores, indexed by
//! the CPU's initial local APIC ID, though only the bootstrap core is
//! scheduled.

use vstd::prelude::*;

use crate::pid::ProcessId;

verus! {

/// Number of CPU slots the kernel keeps.
pub const MAX_CPU_COUNT: usize = 4;

/// One core's slot: the PID it is running, `0` when idle.
#[derive(Clone, Copy, PartialEq, Eq, Structural, Debug)]
pub struct Processor {
    pub current: u16,
}

impl Processor {
    /// A free slot.
    pub fn new() -> (r: Processor)
        ensures
            r.current == 0,
    {
        Processor { current: 0 }
    }

    /// Whether no process is running on this core.
    pub fn is_free(&self) -> (r: bool)
        ensures
            r == (self.current == 0),
    {
        self.current == 0
    }

    /// Claim this core for `pid`.
    pub fn set_pid(&mut self, pid: ProcessId)
        ensures
            final(self).current == pid.0,
    {
        self.current = pid.0;
    }

    /// The PID running on this core, or `None` when idle.
    pub fn get_pid(&self) -> (r: Option<ProcessId>)
        ensures
            self.current == 0 ==> r is None,
            self.current != 0 ==> r == Some(ProcessId(self.current)),
    {
        if self.current == 0 {
            None
        } else {
            Some(ProcessId(self.current))
        }
    }
}

/// The whole per-core table.
pub struct Processors {
    pub slots: Vec<Processor>,
}

impl Processors {
    pub open spec fn wf(self) -> bool {
        self.slots@.len() == MAX_CPU_COUNT
    }

    /// All cores idle.
    pub fn new() -> (r: Processors)
        ensures
            r.wf(),
            forall|i: int| 0 <= i < r.slots@.len() ==> (#[trigger] r.slots@[i]).current == 0,
    {
        let mut slots: Vec<Processor> = Vec::new();
        let mut i: usize = 0;
        while i < MAX_CPU_COUNT
            invariant
                i <= MAX_CPU_COUNT,
                slots@.len() == i,
                forall|j: int| 0 <= j < i ==> (#[trigger] slots@[j]).current == 0,
            decreases MAX_CPU_COUNT - i,
        {
            slots.push(Processor::new());
            i = i + 1;
        }
        Processors { slots }
    }
}

/// Relies on x86's `CpuId`: reads the CPUID feature leaf and reports the
/// executing CPU's initial local APIC ID, if the leaf exists. The value
/// depends on the machine, so nothing is promised of it.
#[verifier::external_body]
fn cpuid_initial_apic_id() -> (r: Option<u8>)
{
    x86::cpuid::CpuId::new().get_feature_info().map(|f| f.initial_local_apic_id())
}

/// Index of the executing core's slot, if CPUID reports one that fits the
/// table.
pub fn current_processor_index() -> (r: Option<usize>)
    ensures
        match r {
            Some(i) => i < MAX_CPU_COUNT,
            None => true,
        },
{
    match cpuid_initial_apic_id() {
        Some(id) => {
            if (id as usize) < MAX_CPU_COUNT {
                Some(id as usize)
            } else {
                None
            }
        },
        None => None,
    }
}

/// Record that core `cpu` now runs `pid`.
pub fn set_pid(processors: &mut Processors, cpu: usize, pid: ProcessId)
    requires
        old(processors).wf(),
        cpu < MAX_CPU_COUNT,
    ensures
        final(processors).wf(),
        final(processors).slots@ == old(processors).slots@.update(cpu as int, Processor { current: pid.0 }),
{
    let mut slot = processors.slots[cpu];
    slot.set_pid(pid);
    processors.slots.set(cpu, slot);
}

/// The PID running on core `cpu`, which must not be idle.
pub fn get_pid(processors: &Processors, cpu: usize) -> (r: ProcessId)
    requires
        processors.wf(),
        cpu < MAX_CPU_COUNT,
        processors.slots@[cpu as int].current != 0,
    ensures
        r.0 == processors.slots@[cpu as int].current,
{
    ProcessId(processors.slots[cpu].current)
}

/// The busy cores: each `(index, pid)` pair for which a process is running,
/// in table order. This is what the diagnostic CPU listing prints.
pub fn print_processors(processors: &Processors) -> (r: Vec<(usize, u16)>)
    ensures
        r@ == spec_busy_slots(processors.slots@),
{
    let mut rows: Vec<(usize, u16)> = Vec::new();
    let n = processors.slots.len();
    let mut i: usize = 0;
    while i < n
        invariant
            n == processors.slots@.len(),
            i <= n,
            rows@ == spec_busy_slots(processors.slots@.take(i as int)),
        decreases n - i,
    {
        let slot = processors.slots[i];
        proof {
            assert(processors.slots@.take(i + 1).drop_last() =~= processors.slots@.take(i as int));
            assert(processors.slots@.take(i + 1).last() == processors.slots@[i as int]);
            assert(processors.slots@.take(i + 1).len() == i + 1);
        }
        if !slot.is_free() {
            rows.push((i, slot.current));
        }
        i = i + 1;
    }
    proof {
        assert(processors.slots@.take(n as int) =~= processors.slots@);
    }
    rows
}

/// The `(index, pid)` pairs of the busy slots of `s`, in order.
pub open spec fn spec_busy_slots(s: Seq<Processor>) -> Seq<(usize, u16)>
    decreases s.len(),
{
    if s.len() == 0 {
        Seq::empty()
    } else if s.last().current != 0 {
        spec_busy_slots(s.drop_last()).push(((s.len() - 1) as usize, s.last().current))
    } else {
        spec_busy_slots(s.drop_last())
    }
}

} // verus!
