//! Saved execution state of a process.
//!
//! A `ProcessContext` is what the timer interrupt freezes and thaws: the full
//! general-purpose register file plus the hardware-delivered interrupt stack
//! frame (instruction pointer, code segment, RFLAGS, stack pointer, stack
//! segment). The scheduler copies it out on `save` and back in on `restore`;
//! the two copies compose to the identity, which is the round-trip guarantee
//! the interrupt trampoline relies on.

use vstd::prelude::*;

use crate::gdt;
use crate::regs::RegistersValue;

verus! {

/// RFLAGS value a fresh kernel thread starts with:
/// both IOPL bits plus the interrupt-enable flag.
pub const SPAWN_RFLAGS: u64 = 0x3200;

/// The stack frame the CPU pushes when delivering an interrupt.
#[derive(Clone, Copy, PartialEq, Eq, Structural, Debug)]
pub struct InterruptFrameValue {
    pub instruction_pointer: u64,
    pub code_segment: u64,
    pub cpu_flags: u64,
    pub stack_pointer: u64,
    pub stack_segment: u64,
}

/// Register file plus interrupt stack frame: everything needed to resume a
/// process exactly where it was preempted.
#[derive(Clone, Copy, PartialEq, Eq, Structural, Debug)]
pub struct ProcessContextValue {
    pub regs: RegistersValue,
    pub stack_frame: InterruptFrameValue,
}

/// A process's saved context.
#[derive(Clone, Copy, PartialEq, Eq, Structural, Debug)]
pub struct ProcessContext {
    pub value: ProcessContextValue,
}

impl ProcessContextValue {
    /// The context a process is created with: zeroed registers, zeroed
    /// frame except for the kernel code segment.
    pub open spec fn spec_initial() -> ProcessContextValue {
        ProcessContextValue {
            regs: RegistersValue::spec_zeroed(),
            stack_frame: InterruptFrameValue {
                instruction_pointer: 0,
                code_segment: gdt::KERNEL_CODE_SELECTOR as u64,
                cpu_flags: 0,
                stack_pointer: 0,
                stack_segment: 0,
            },
        }
    }
}

impl Default for ProcessContextValue {
    fn default() -> (r: ProcessContextValue)
        ensures
            r == ProcessContextValue::spec_initial(),
    {
        ProcessContextValue {
            regs: RegistersValue::zeroed(),
            stack_frame: InterruptFrameValue {
                instruction_pointer: 0,
                code_segment: gdt::KERNEL_CODE_SELECTOR as u64,
                cpu_flags: 0,
                stack_pointer: 0,
                stack_segment: 0,
            },
        }
    }
}

impl ProcessContext {
    /// The full saved state this context holds.
    pub open spec fn value(self) -> ProcessContextValue {
        self.value
    }

    /// Fresh context for a newly created process.
    pub fn new() -> (r: ProcessContext)
        ensures
            r.value() == ProcessContextValue::spec_initial(),
    {
        ProcessContext { value: ProcessContextValue::default() }
    }

    /// Set the saved `rax`, the register that carries a return value.
    pub fn set_rax(&mut self, value: usize)
        ensures
            final(self).value().regs == (RegistersValue { rax: value, ..old(self).value().regs }),
            final(self).value().stack_frame == old(self).value().stack_frame,
    {
        self.value.regs.rax = value;
    }

    /// Copy `context` into this saved slot (the "freeze" half of a tick).
    pub fn save(&mut self, context: &ProcessContext)
        ensures
            final(self).value() == context.value(),
    {
        self.value = context.value;
    }

    /// Copy this saved slot back out into `context` (the "thaw" half).
    pub fn restore(&self, context: &mut ProcessContext)
        ensures
            final(context).value() == self.value(),
    {
        context.value = self.value;
    }

    /// Point the context at a fresh kernel thread: execution starts at
    /// `entry` on the stack ending at `stack_top`, in the kernel code and
    /// data segments, with interrupts enabled.
    pub fn init_stack_frame(&mut self, entry: u64, stack_top: u64)
        ensures
            final(self).value().stack_frame == (InterruptFrameValue {
                instruction_pointer: entry,
                code_segment: gdt::KERNEL_CODE_SELECTOR as u64,
                cpu_flags: SPAWN_RFLAGS,
                stack_pointer: stack_top,
                stack_segment: gdt::KERNEL_DATA_SELECTOR as u64,
            }),
            final(self).value().regs == old(self).value().regs,
    {
        self.value.stack_frame.stack_pointer = stack_top;
        self.value.stack_frame.instruction_pointer = entry;
        self.value.stack_frame.cpu_flags = SPAWN_RFLAGS;
        let selector = gdt::get_selector();
        self.value.stack_frame.code_segment = selector.code_selector as u64;
        self.value.stack_frame.stack_segment = selector.data_selector as u64;
    }
}

/// Save/restore round trip: a context saved into a process slot and later
/// restored from it comes back bit-for-bit equal. `save` leaves the slot
/// holding the frozen value and `restore` copies that very value out, so the
/// register file and stack frame survive a tick unchanged.
pub proof fn lemma_save_restore_roundtrip(
    frozen: ProcessContext,
    slot_after_save: ProcessContext,
    thawed: ProcessContext,
)
    requires
        // what `save` guarantees of the slot
        slot_after_save.value() == frozen.value(),
        // what `restore` from that slot guarantees of the live context
        thawed.value() == slot_after_save.value(),
    ensures
        thawed.value() == frozen.value(),
        thawed.value().regs == frozen.value().regs,
{
}

} // verus!
