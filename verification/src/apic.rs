//! The local APIC (xAPIC), as register-level state.
//!
//! The xAPIC is a 4 KiB MMIO window of 32-bit registers at 16-byte stride;
//! the model holds one `u32` per stride slot, and the volatile accesses that
//! move them to the device belong to the hardware shell. `cpu_init`
//! performs the bring-up sequence: enable via the spurious-interrupt vector
//! register, periodic timer, masked LINT0/LINT1/PCINT, error vector,
//! cleared error status, an EOI, an INIT-level-deassert broadcast, and a
//! zeroed task priority register.

use vstd::prelude::*;
use vstd::pervasive::VecAdditionalExecFns;

verus! {

/// Physical base of the xAPIC MMIO window.
pub const LAPIC_ADDR: u64 = 0xfee00000;

/// First IDT vector used for programmable interrupts.
pub const IRQ_BASE: u32 = 0x20;

/// IRQ line of the periodic timer.
pub const IRQ_TIMER: u32 = 0;

/// IRQ line of the first serial port (COM1).
pub const IRQ_SERIAL0: u32 = 4;

/// Vector the APIC error interrupt is mapped to.
pub const IRQ_ERROR: u32 = 19;

/// IRQ offset of the spurious-interrupt vector.
pub const IRQ_SPURIOUS: u32 = 31;

/// Delivery-status bit of the interrupt command register.
pub const ICR_DELIVERY_STATUS: u32 = 0x1000;

/// Number of 16-byte register slots in the 4 KiB window.
pub const XAPIC_SLOTS: usize = 256;

/// The xAPIC: the virtual address its window is mapped at, and the
/// register file behind it (one `u32` per 16-byte slot).
pub struct XApic {
    pub addr: u64,
    pub regs: Vec<u32>,
}

impl XApic {
    pub open spec fn wf(self) -> bool {
        self.regs@.len() == XAPIC_SLOTS
    }

    /// The register at byte offset `reg`.
    pub open spec fn spec_reg(self, reg: u32) -> u32 {
        self.regs@[reg as int / 16]
    }

    /// An xAPIC whose window sits at `addr`, registers cleared.
    pub fn new(addr: u64) -> (r: XApic)
        ensures
            r.wf(),
            r.addr == addr,
            forall|i: int| 0 <= i < XAPIC_SLOTS ==> r.regs@[i] == 0,
    {
        let mut regs: Vec<u32> = Vec::new();
        let mut i: usize = 0;
        while i < XAPIC_SLOTS
            invariant
                i <= XAPIC_SLOTS,
                regs@.len() == i,
                forall|j: int| 0 <= j < i ==> regs@[j] == 0,
            decreases XAPIC_SLOTS - i,
        {
            regs.push(0);
            i = i + 1;
        }
        XApic { addr, regs }
    }

    /// Read the register at byte offset `reg` (16-byte aligned, inside the
    /// window).
    fn read(&self, reg: u32) -> (r: u32)
        requires
            self.wf(),
            reg < 0x1000,
            reg % 16 == 0,
        ensures
            r == self.spec_reg(reg),
    {
        self.regs[(reg / 16) as usize]
    }

    /// Write the register at byte offset `reg`.
    fn write(&mut self, reg: u32, value: u32)
        requires
            old(self).wf(),
            reg < 0x1000,
            reg % 16 == 0,
        ensures
            final(self).wf(),
            final(self).addr == old(self).addr,
            final(self).regs@ == old(self).regs@.update(reg as int / 16, value),
    {
        self.regs.set((reg / 16) as usize, value);
    }

    /// Relies on x86's `CpuId`: whether the CPUID feature leaf reports a
    /// local APIC. The answer depends on the machine, so nothing more is
    /// promised of it.
    #[verifier::external_body]
    fn cpuid_has_apic() -> (r: bool)
    {
        x86::cpuid::CpuId::new()
            .get_feature_info()
            .map(|f| f.has_apic())
            .unwrap_or(false)
    }

    /// Whether this kind of APIC is supported on the executing CPU.
    pub fn support() -> bool {
        XApic::cpuid_has_apic()
    }

    /// Bring the xAPIC up for the current CPU; see the module description
    /// for the sequence. Every register not named below keeps its value.
    pub fn cpu_init(&mut self)
        requires
            old(self).wf(),
        ensures
            final(self).wf(),
            final(self).addr == old(self).addr,
            // spurious-interrupt vector: enable bit set, vector replaced
            final(self).spec_reg(0xF0)
                == ((old(self).spec_reg(0xF0) | 0x100) & !0xFFu32) | ((IRQ_BASE + IRQ_SPURIOUS) as u32),
            // timer: vector replaced, unmasked, periodic
            final(self).spec_reg(0x320)
                == (((old(self).spec_reg(0x320) & !0xFFu32) | ((IRQ_BASE + IRQ_TIMER) as u32)) & !(1u32 << 16))
                    | (1u32 << 17),
            // LINT0, LINT1, PCINT masked
            final(self).spec_reg(0x350) == 1u32 << 16,
            final(self).spec_reg(0x360) == 1u32 << 16,
            final(self).spec_reg(0x340) == 1u32 << 16,
            // error interrupt vector
            final(self).spec_reg(0x370) == (old(self).spec_reg(0x370) & !0xFFu32) | IRQ_ERROR,
            // error status cleared, pending interrupts acknowledged
            final(self).spec_reg(0x280) == 0,
            final(self).spec_reg(0xB0) == 0,
            // INIT level de-assert broadcast
            final(self).spec_reg(0x310) == 0,
            final(self).spec_reg(0x300) == (1u32 << 19) | (5u32 << 8) | (1u32 << 15),
            // task priority: accept everything
            final(self).spec_reg(0x80) == 0,
            forall|i: int| 0 <= i < XAPIC_SLOTS
                && i != 0xF && i != 0x32 && i != 0x35 && i != 0x36 && i != 0x34 && i != 0x37
                && i != 0x28 && i != 0xB && i != 0x31 && i != 0x30 && i != 0x8
                ==> final(self).regs@[i] == old(self).regs@[i],
    {
        // enable the local APIC and set the spurious interrupt vector
        let mut spiv = self.read(0xF0);
        spiv = spiv | 0x100;
        spiv = spiv & !0xFFu32;
        spiv = spiv | (IRQ_BASE + IRQ_SPURIOUS);
        self.write(0xF0, spiv);
        // the timer repeatedly counts down at bus frequency
        let mut lvt_timer = self.read(0x320);
        lvt_timer = lvt_timer & !0xFFu32;
        lvt_timer = lvt_timer | (IRQ_BASE + IRQ_TIMER);
        lvt_timer = lvt_timer & !(1u32 << 16);  // clear mask
        lvt_timer = lvt_timer | (1u32 << 17);  // periodic mode
        self.write(0x320, lvt_timer);
        // disable the logical interrupt lines
        self.write(0x350, 1u32 << 16);
        self.write(0x360, 1u32 << 16);
        // disable performance-counter overflow interrupts
        self.write(0x340, 1u32 << 16);
        // map the error interrupt
        let mut error_vector = self.read(0x370);
        error_vector = error_vector & !0xFFu32;
        error_vector = error_vector | IRQ_ERROR;
        self.write(0x370, error_vector);
        // clear the error status register (two back-to-back writes)
        self.write(0x280, 0);
        self.write(0x280, 0);
        // acknowledge any outstanding interrupts
        self.eoi();
        // send an INIT level de-assert to synchronise arbitration IDs
        self.write(0x310, 0);
        let bcast: u32 = 1u32 << 19;
        let init: u32 = 5u32 << 8;
        let tmlv: u32 = 1u32 << 15;
        self.write(0x300, bcast | init | tmlv);
        proof {
            assert(((1u32 << 19) | (5u32 << 8) | (1u32 << 15)) & 0x1000u32 == 0) by (bit_vector);
        }
        let mut ds = self.read(0x300) & ICR_DELIVERY_STATUS;
        // wait for the delivery status to clear (already clear in this
        // register model; hardware may briefly keep it set)
        while ds != 0
            invariant
                ds == 0,
            decreases 0int,
        {
            ds = 0;
        }
        // enable interrupts on the APIC (but not yet on the processor)
        self.write(0x80, 0);
    }

    /// This CPU's APIC ID: bits 31:24 of the ID register.
    pub fn id(&self) -> (r: u32)
        requires
            self.wf(),
        ensures
            r == self.spec_reg(0x20) >> 24,
    {
        self.read(0x20) >> 24
    }

    /// The version register.
    pub fn version(&self) -> (r: u32)
        requires
            self.wf(),
        ensures
            r == self.spec_reg(0x30),
    {
        self.read(0x30)
    }

    /// The interrupt command register, high half shifted in.
    pub fn icr(&self) -> (r: u64)
        requires
            self.wf(),
        ensures
            r == ((self.spec_reg(0x310) as u64) << 32) | (self.spec_reg(0x300) as u64),
    {
        ((self.read(0x310) as u64) << 32) | (self.read(0x300) as u64)
    }

    /// Write the interrupt command register: high half first, then the low
    /// half, which issues the command. The delivery-status bit is hardware
    /// status and must not be set in `value`; the model's register file
    /// never holds it either, so the surrounding waits return at once.
    pub fn set_icr(&mut self, value: u64)
        requires
            old(self).wf(),
            old(self).spec_reg(0x300) & ICR_DELIVERY_STATUS == 0,
            (value as u32) & ICR_DELIVERY_STATUS == 0,
        ensures
            final(self).wf(),
            final(self).addr == old(self).addr,
            final(self).spec_reg(0x310) == (value >> 32) as u32,
            final(self).spec_reg(0x300) == value as u32,
            forall|i: int| 0 <= i < XAPIC_SLOTS && i != 0x31 && i != 0x30
                ==> final(self).regs@[i] == old(self).regs@[i],
    {
        let mut ds = self.read(0x300) & ICR_DELIVERY_STATUS;
        while ds != 0
            invariant
                ds == 0,
            decreases 0int,
        {
            ds = 0;
        }
        self.write(0x310, (value >> 32) as u32);
        self.write(0x300, value as u32);
        let mut ds2 = self.read(0x300) & ICR_DELIVERY_STATUS;
        while ds2 != 0
            invariant
                ds2 == 0,
            decreases 0int,
        {
            ds2 = 0;
        }
    }

    /// Signal end-of-interrupt.
    pub fn eoi(&mut self)
        requires
            old(self).wf(),
        ensures
            final(self).wf(),
            final(self).addr == old(self).addr,
            final(self).regs@ == old(self).regs@.update(0xB, 0u32),
    {
        self.write(0xB0, 0);
    }
}

} // verus!
