//! Core of a small x86-64 teaching kernel: virtual-memory layout and mapping
//! plans, interrupt-controller and UART register models, and a preemptive
//! round-robin process scheduler, with machine-checked contracts.
//!
//! Hardware access (MMIO, port I/O, privileged registers) lives outside this
//! crate; everything here works on plain values and explicit state.

pub mod apic;
pub mod clock;
pub mod config;
pub mod context;
pub mod data;
pub mod gdt;
pub mod input;
pub mod manager;
pub mod memory;
pub mod paging;
pub mod pid;
pub mod proc;
pub mod process;
pub mod processor;
pub mod regs;
pub mod serial;
pub mod uart;
pub mod utils;
