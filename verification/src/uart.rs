//! A 16550-compatible serial port, as register-level state.
//!
//! The port's latches and FIFOs are held as plain values; the port I/O that
//! moves them to the device is the hardware shell's business. The model
//! keeps the 16550's addressing quirks: with DLAB set, the data and
//! interrupt-enable registers address the baud divisor instead, and with
//! loopback set in the modem-control register, transmitted bytes come back
//! on the receiver — which is how `init`'s self test works, and what the
//! loopback round-trip law is about.

use vstd::prelude::*;

use std::collections::VecDeque;

verus! {

/// DLAB: while set, the data/interrupt-enable registers address the
/// divisor.
pub const LCR_DLAB: u8 = 0x80;

/// Loopback: while set, sent bytes are delivered to the own receiver.
pub const MCR_LOOPBACK: u8 = 0x10;

/// Why initializing the port can fail.
#[derive(Clone, Copy, PartialEq, Eq, Structural, Debug)]
pub enum SerialError {
    /// The loopback self test read back a different byte than was sent.
    SelfTestFailed,
}

/// A serial port: its I/O base and the device state behind it.
pub struct SerialPort {
    pub base_port: u16,
    pub interrupt_enable: u8,
    pub line_control: u8,
    pub fifo_control: u8,
    pub modem_control: u8,
    pub divisor_lo: u8,
    pub divisor_hi: u8,
    /// Bytes waiting in the receiver FIFO, oldest first.
    pub rx: VecDeque<u8>,
    /// Bytes handed to the transmitter and sent out on the line, in order.
    pub tx: Vec<u8>,
}

/// The spec-level image of a port.
pub struct SpecSerialPort {
    pub base_port: u16,
    pub interrupt_enable: u8,
    pub line_control: u8,
    pub fifo_control: u8,
    pub modem_control: u8,
    pub divisor_lo: u8,
    pub divisor_hi: u8,
    pub rx: Seq<u8>,
    pub tx: Seq<u8>,
}

impl View for SerialPort {
    type V = SpecSerialPort;

    open spec fn view(&self) -> SpecSerialPort {
        SpecSerialPort {
            base_port: self.base_port,
            interrupt_enable: self.interrupt_enable,
            line_control: self.line_control,
            fifo_control: self.fifo_control,
            modem_control: self.modem_control,
            divisor_lo: self.divisor_lo,
            divisor_hi: self.divisor_hi,
            rx: self.rx@,
            tx: self.tx@,
        }
    }
}

/// Whether the divisor latch is addressed instead of data/IER.
pub open spec fn spec_dlab(s: SpecSerialPort) -> bool {
    s.line_control & LCR_DLAB != 0
}

/// Whether the port loops transmitted bytes back to its receiver.
pub open spec fn spec_loopback(s: SpecSerialPort) -> bool {
    s.modem_control & MCR_LOOPBACK != 0
}

/// The port after a byte is written to the data register: the divisor low
/// byte while DLAB is set; otherwise the byte goes to the own receiver in
/// loopback, and out on the line if not.
pub open spec fn spec_send(s: SpecSerialPort, b: u8) -> SpecSerialPort {
    if spec_dlab(s) {
        SpecSerialPort { divisor_lo: b, ..s }
    } else if spec_loopback(s) {
        SpecSerialPort { rx: s.rx.push(b), ..s }
    } else {
        SpecSerialPort { tx: s.tx.push(b), ..s }
    }
}

/// What reading the receiver yields: the oldest received byte, if any.
pub open spec fn spec_receive_result(s: SpecSerialPort) -> Option<u8> {
    if s.rx.len() > 0 {
        Some(s.rx[0])
    } else {
        None
    }
}

/// The port after the receiver is read.
pub open spec fn spec_receive_state(s: SpecSerialPort) -> SpecSerialPort {
    if s.rx.len() > 0 {
        SpecSerialPort { rx: s.rx.drop_first(), ..s }
    } else {
        s
    }
}

impl SerialPort {
    /// A port at the given I/O base, all registers and FIFOs clear.
    pub fn new(port: u16) -> (r: SerialPort)
        ensures
            r@ == (SpecSerialPort {
                base_port: port,
                interrupt_enable: 0,
                line_control: 0,
                fifo_control: 0,
                modem_control: 0,
                divisor_lo: 0,
                divisor_hi: 0,
                rx: Seq::empty(),
                tx: Seq::empty(),
            }),
    {
        let r = SerialPort {
            base_port: port,
            interrupt_enable: 0,
            line_control: 0,
            fifo_control: 0,
            modem_control: 0,
            divisor_lo: 0,
            divisor_hi: 0,
            rx: VecDeque::new(),
            tx: Vec::new(),
        };
        proof {
            assert(r@.rx =~= Seq::<u8>::empty());
            assert(r@.tx =~= Seq::<u8>::empty());
        }
        r
    }

    /// Write the data register (see [`spec_send`]).
    fn write_data(&mut self, b: u8)
        ensures
            final(self)@ == spec_send(old(self)@, b),
    {
        if self.line_control & LCR_DLAB != 0 {
            self.divisor_lo = b;
        } else if self.modem_control & MCR_LOOPBACK != 0 {
            self.rx.push_back(b);
        } else {
            self.tx.push(b);
        }
    }

    /// Read the data register: the oldest received byte, or `0` with the
    /// receiver empty.
    fn read_data(&mut self) -> (r: u8)
        ensures
            final(self)@ == spec_receive_state(old(self)@),
            r == match spec_receive_result(old(self)@) {
                Some(b) => b,
                None => 0u8,
            },
    {
        match self.rx.pop_front() {
            Some(b) => {
                proof {
                    assert(self@.rx =~= old(self)@.rx.drop_first());
                }
                b
            },
            None => 0,
        }
    }

    /// Write the interrupt-enable register; while DLAB is set this is the
    /// divisor high byte.
    fn write_interrupt_enable(&mut self, b: u8)
        ensures
            final(self)@ == if spec_dlab(old(self)@) {
                SpecSerialPort { divisor_hi: b, ..old(self)@ }
            } else {
                SpecSerialPort { interrupt_enable: b, ..old(self)@ }
            },
    {
        if self.line_control & LCR_DLAB != 0 {
            self.divisor_hi = b;
        } else {
            self.interrupt_enable = b;
        }
    }

    /// Write the FIFO control register; bit 1 clears the receiver FIFO.
    fn write_fifo_control(&mut self, b: u8)
        ensures
            final(self)@ == (SpecSerialPort {
                fifo_control: b,
                rx: if b & 2 != 0 {
                    Seq::empty()
                } else {
                    old(self)@.rx
                },
                ..old(self)@
            }),
    {
        self.fifo_control = b;
        if b & 2 != 0 {
            self.rx.clear();
        }
    }

    /// Initialize the port: interrupts off, divisor 3 (38400 baud), 8 bits
    /// no parity one stop bit, FIFOs on and cleared with a 14-byte
    /// threshold, then a loopback self test (the byte `0xAE` must come
    /// back), and finally modem control `0x0F` with the receive interrupt
    /// enabled. In this state model the self test always passes; real
    /// hardware may fail it, and the caller decides what a failure means.
    pub fn init(&mut self) -> (r: Result<(), SerialError>)
        ensures
            r is Ok,
            final(self)@ == (SpecSerialPort {
                interrupt_enable: 1,
                line_control: 3,
                fifo_control: 0xC7,
                modem_control: 0x0F,
                divisor_lo: 3,
                divisor_hi: 0,
                rx: Seq::empty(),
                tx: old(self)@.tx,
                ..old(self)@
            }),
    {
        proof {
            assert(0x80u8 & 0x80u8 != 0 && 0x03u8 & 0x80u8 == 0 && 0x1Eu8 & 0x10u8 != 0
                && 0xC7u8 & 2u8 != 0 && 0x1Eu8 & 0x80u8 == 0) by (bit_vector);
        }
        // interrupts off while the port is reprogrammed
        self.write_interrupt_enable(0x00);
        // DLAB on: program the divisor
        self.line_control = 0x80;
        self.write_data(0x03);
        self.write_interrupt_enable(0x00);
        // 8 bits, no parity, one stop bit (DLAB off again)
        self.line_control = 0x03;
        // FIFOs on, cleared, 14-byte threshold
        self.write_fifo_control(0xC7);
        // request-to-send and auxiliary outputs
        self.modem_control = 0x0B;
        // loopback for the self test
        self.modem_control = 0x1E;
        self.write_data(0xAE);
        let echoed = self.read_data();
        if echoed != 0xAE {
            proof {
                assert(false);
            }
            return Err(SerialError::SelfTestFailed);
        }
        proof {
            assert(self@.rx =~= Seq::<u8>::empty());
        }
        // normal operation, receive interrupt on
        self.modem_control = 0x0F;
        self.write_interrupt_enable(0x01);
        Ok(())
    }

    /// Send a byte: wait for the transmitter to drain (immediate in this
    /// model), then write the data register.
    pub fn send(&mut self, data: u8)
        ensures
            final(self)@ == spec_send(old(self)@, data),
    {
        self.write_data(data);
    }

    /// Take the oldest received byte, or `None` with nothing pending.
    pub fn receive(&mut self) -> (r: Option<u8>)
        ensures
            final(self)@ == spec_receive_state(old(self)@),
            r == spec_receive_result(old(self)@),
    {
        match self.rx.pop_front() {
            Some(b) => {
                proof {
                    assert(self@.rx =~= old(self)@.rx.drop_first());
                }
                Some(b)
            },
            None => None,
        }
    }

    /// A byte arrives on the line and lands in the receiver FIFO.
    pub fn line_deliver(&mut self, b: u8)
        ensures
            final(self)@ == (SpecSerialPort { rx: old(self)@.rx.push(b), ..old(self)@ }),
    {
        self.rx.push_back(b);
    }
}

/// Loopback round trip: with the divisor latch closed, loopback on, and the
/// receiver drained, a byte written to the data register and then received
/// comes back exactly as written.
pub proof fn lemma_loopback_roundtrip(s: SpecSerialPort, b: u8)
    requires
        !spec_dlab(s),
        spec_loopback(s),
        s.rx.len() == 0,
    ensures
        spec_receive_result(spec_send(s, b)) == Some(b),
        spec_receive_state(spec_send(s, b)).rx.len() == 0,
{
    assert(spec_send(s, b).rx =~= seq![b]);
    assert(spec_receive_state(spec_send(s, b)).rx =~= Seq::<u8>::empty());
}

} // verus!
