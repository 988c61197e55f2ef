//! Global Descriptor Table layout and the selectors the kernel runs under.
//!
//! The table holds, in order: a null entry, kernel code, kernel data, and the
//! TSS descriptor, so the kernel code selector is `1 << 3 = 8` and the kernel
//! data selector is `2 << 3 = 16`, both ring 0. The TSS carries four fixed
//! 4 KiB stacks: one privilege stack and three interrupt stacks (double
//! fault, page fault, timer). Loading the table and the segment registers is
//! privileged and happens outside this crate; here live the layout facts the
//! scheduler's stack frames depend on.

use vstd::prelude::*;

verus! {

/// Interrupt-stack-table slot used by the double-fault handler.
pub const DOUBLE_FAULT_IST_INDEX: u16 = 0;

/// Interrupt-stack-table slot used by the page-fault handler.
pub const PAGE_FAULT_IST_INDEX: u16 = 1;

/// Interrupt-stack-table slot used by the timer handler (scheduler entry).
pub const TIMER_IST_INDEX: u16 = 2;

/// Size in bytes of each of the four dedicated stacks.
pub const IST_STACK_SIZE: usize = 0x1000;

/// Selector of the kernel code segment: first GDT entry after null, ring 0.
pub const KERNEL_CODE_SELECTOR: u16 = 8;

/// Selector of the kernel data segment: second GDT entry after null, ring 0.
pub const KERNEL_DATA_SELECTOR: u16 = 16;

/// The selectors established by the kernel's GDT.
#[derive(Clone, Copy, PartialEq, Eq, Structural, Debug)]
pub struct KernelSelectors {
    pub code_selector: u16,
    pub data_selector: u16,
}

/// The selectors the GDT layout fixes: code at `8`, data at `16`.
pub fn get_selector() -> (r: KernelSelectors)
    ensures
        r.code_selector == KERNEL_CODE_SELECTOR,
        r.data_selector == KERNEL_DATA_SELECTOR,
{
    KernelSelectors { code_selector: KERNEL_CODE_SELECTOR, data_selector: KERNEL_DATA_SELECTOR }
}

/// Where the stack placed at `base` ends: the address loaded into the TSS
/// slot (stacks grow down, so the upper boundary goes into the table).
pub fn ist_stack_top(base: u64) -> (r: u64)
    requires
        base + IST_STACK_SIZE <= u64::MAX,
    ensures
        r == base + IST_STACK_SIZE,
{
    base + (IST_STACK_SIZE as u64)
}

} // verus!
