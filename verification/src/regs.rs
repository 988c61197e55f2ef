//! The saved general-purpose register file.
//!
//! These are the fifteen integer registers of the SysV AMD64 ABI except
//! `rsp`, which travels in the interrupt stack frame. The interrupt
//! trampoline pushes them in the order `rbp, rax, rbx, rcx, rdx, rsi, rdi,
//! r8..r15`, so the struct lists them top-of-stack first.

use vstd::prelude::*;

verus! {

/// A snapshot of the general-purpose registers.
#[derive(Clone, Copy, PartialEq, Eq, Structural, Debug)]
pub struct RegistersValue {
    pub r15: usize,
    pub r14: usize,
    pub r13: usize,
    pub r12: usize,
    pub r11: usize,
    pub r10: usize,
    pub r9: usize,
    pub r8: usize,
    pub rdi: usize,
    pub rsi: usize,
    pub rdx: usize,
    pub rcx: usize,
    pub rbx: usize,
    pub rax: usize,
    pub rbp: usize,
}

impl RegistersValue {
    /// All registers zeroed; the state a fresh process starts from.
    pub fn zeroed() -> (r: RegistersValue)
        ensures
            r == RegistersValue::spec_zeroed(),
    {
        RegistersValue {
            r15: 0, r14: 0, r13: 0, r12: 0, r11: 0, r10: 0, r9: 0, r8: 0,
            rdi: 0, rsi: 0, rdx: 0, rcx: 0, rbx: 0, rax: 0, rbp: 0,
        }
    }

    /// The zero register file.
    pub open spec fn spec_zeroed() -> RegistersValue {
        RegistersValue {
            r15: 0, r14: 0, r13: 0, r12: 0, r11: 0, r10: 0, r9: 0, r8: 0,
            rdi: 0, rsi: 0, rdx: 0, rcx: 0, rbx: 0, rax: 0, rbp: 0,
        }
    }
}

impl Default for RegistersValue {
    fn default() -> (r: RegistersValue)
        ensures
            r == RegistersValue::spec_zeroed(),
    {
        RegistersValue::zeroed()
    }
}

} // verus!
