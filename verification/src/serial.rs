//! The serial-receive interrupt's work: move a byte from the UART to the
//! input buffer. The interrupt shell calls [`receive`] and then
//! acknowledges the interrupt at the local APIC.

use vstd::prelude::*;

use crate::input::{push_key, InputBuffer};
use crate::uart::{spec_receive_result, spec_receive_state, SerialPort};

verus! {

/// Take the pending byte off the serial port, if any, and deposit it in
/// the input buffer; a byte arriving at a full buffer is dropped. Called
/// on every serial interrupt.
pub fn receive(port: &mut SerialPort, buf: &mut InputBuffer)
    ensures
        final(port)@ == spec_receive_state(old(port)@),
        final(buf).capacity() == old(buf).capacity(),
        match spec_receive_result(old(port)@) {
            Some(b) => {
                if old(buf).contents().len() < old(buf).capacity() {
                    final(buf).contents() == old(buf).contents().push(b)
                } else {
                    final(buf).contents() == old(buf).contents()
                }
            },
            None => final(buf).contents() == old(buf).contents(),
        },
{
    let ch = port.receive();
    match ch {
        Some(ch) => {
            push_key(buf, ch);
        },
        None => {},
    }
}

} // verus!
