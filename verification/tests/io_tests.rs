use ysos_core::apic::XApic;
use ysos_core::clock::{inc_counter, read_counter, TickCounter};
use ysos_core::gdt;
use ysos_core::input::{backspace, get_line, pop_key, push_key, try_pop_key, InputBuffer};
use ysos_core::processor::{self, Processor, Processors};
use ysos_core::serial;
use ysos_core::uart::SerialPort;

#[test]
fn uart_init_programs_the_port() {
    let mut port = SerialPort::new(0x3F8);
    assert!(port.init().is_ok());
    assert_eq!(port.interrupt_enable, 0x01);
    assert_eq!(port.line_control, 0x03);
    assert_eq!(port.fifo_control, 0xC7);
    assert_eq!(port.modem_control, 0x0F);
    // divisor 3: 38400 baud
    assert_eq!(port.divisor_lo, 3);
    assert_eq!(port.divisor_hi, 0);
    // the self-test byte was consumed
    assert_eq!(port.receive(), None);
}

#[test]
fn uart_loopback_returns_the_byte_written() {
    // after init succeeds, a byte written in loopback mode is received
    // back exactly
    let mut port = SerialPort::new(0x3F8);
    assert!(port.init().is_ok());
    port.modem_control |= 0x10;  // loopback on
    for b in [0x00u8, 0x41, 0xAE, 0xFF] {
        port.send(b);
        assert_eq!(port.receive(), Some(b));
    }
}

#[test]
fn uart_send_goes_out_on_the_line() {
    let mut port = SerialPort::new(0x3F8);
    assert!(port.init().is_ok());
    port.send(b'h');
    port.send(b'i');
    assert_eq!(port.tx, vec![b'h', b'i']);
    assert_eq!(port.receive(), None);
}

#[test]
fn input_buffer_is_fifo_and_bounded() {
    let mut buf = InputBuffer::new();
    assert_eq!(try_pop_key(&mut buf), None);
    assert!(push_key(&mut buf, 1));
    assert!(push_key(&mut buf, 2));
    assert_eq!(pop_key(&mut buf), 1);
    assert_eq!(pop_key(&mut buf), 2);
    // fill the 128-slot buffer: the next byte is dropped with a warning
    for i in 0..128u32 {
        assert!(push_key(&mut buf, i as u8));
    }
    assert!(!push_key(&mut buf, 0xEE));
    assert_eq!(pop_key(&mut buf), 0);
}

#[test]
fn serial_echo_line() {
    // bytes A, B, CR arrive over COM1: each serial interrupt moves one
    // into the input queue, in order; get_line then returns "AB"
    let mut port = SerialPort::new(0x3F8);
    assert!(port.init().is_ok());
    let mut buf = InputBuffer::new();
    for b in [b'A', b'B', b'\r'] {
        port.line_deliver(b);
        serial::receive(&mut port, &mut buf);
    }
    let mut line = Vec::new();
    let done = get_line(&mut buf, &mut line);
    assert!(done);
    assert_eq!(line, b"AB".to_vec());
    // the queue is drained
    assert_eq!(try_pop_key(&mut buf), None);
}

#[test]
fn line_editing_with_backspace() {
    let mut buf = InputBuffer::new();
    for b in [b'a', b'x', 0x08, b'b', b'q', 0x7F, b'\r'] {
        push_key(&mut buf, b);
    }
    let mut line = Vec::new();
    assert!(get_line(&mut buf, &mut line));
    assert_eq!(line, b"ab".to_vec());
    // backspacing an empty line erases nothing
    let mut buf = InputBuffer::new();
    for b in [0x08, b'z', b'\r'] {
        push_key(&mut buf, b);
    }
    let mut line = Vec::new();
    assert!(get_line(&mut buf, &mut line));
    assert_eq!(line, b"z".to_vec());
}

#[test]
fn line_waits_for_more_input() {
    // the buffer drains before a return arrives: the line is incomplete
    // and editing resumes where it stopped
    let mut buf = InputBuffer::new();
    push_key(&mut buf, b'h');
    push_key(&mut buf, b'i');
    let mut line = Vec::new();
    assert!(!get_line(&mut buf, &mut line));
    assert_eq!(line, b"hi".to_vec());
    push_key(&mut buf, b'\r');
    assert!(get_line(&mut buf, &mut line));
    assert_eq!(line, b"hi".to_vec());
}

#[test]
fn backspace_erase_sequence() {
    assert_eq!(backspace(), vec![0x08, 0x20, 0x08]);
}

#[test]
fn apic_cpu_init_programs_the_registers() {
    let mut apic = XApic::new(0xFFFF_8000_FEE0_0000);
    apic.cpu_init();
    // spurious vector: enabled, vector 0x20 + 31
    assert_eq!(apic.regs[0xF], 0x100 | 0x3F);
    // timer: vector 0x20, unmasked, periodic
    assert_eq!(apic.regs[0x32], 0x20 | (1 << 17));
    // LINT0, LINT1, PCINT masked
    assert_eq!(apic.regs[0x35], 1 << 16);
    assert_eq!(apic.regs[0x36], 1 << 16);
    assert_eq!(apic.regs[0x34], 1 << 16);
    // error vector (without the IRQ base, as the bring-up writes it)
    assert_eq!(apic.regs[0x37], 19);
    // ESR cleared, EOI written, TPR zero
    assert_eq!(apic.regs[0x28], 0);
    assert_eq!(apic.regs[0xB], 0);
    assert_eq!(apic.regs[0x8], 0);
    // the INIT level de-assert broadcast
    assert_eq!(apic.regs[0x30], (1 << 19) | (5 << 8) | (1 << 15));
}

#[test]
fn apic_id_and_icr() {
    let mut apic = XApic::new(0xFFFF_8000_FEE0_0000);
    apic.regs[0x2] = 0x0300_0000;
    assert_eq!(apic.id(), 3);
    apic.set_icr(0x0000_0001_0000_0500);
    assert_eq!(apic.icr(), 0x0000_0001_0000_0500);
    apic.eoi();
    assert_eq!(apic.regs[0xB], 0);
}

#[test]
fn tick_counter_counts() {
    let mut c = TickCounter::new();
    assert_eq!(read_counter(&c), 0);
    assert_eq!(inc_counter(&mut c), 0);
    assert_eq!(inc_counter(&mut c), 1);
    assert_eq!(read_counter(&c), 2);
}

#[test]
fn processor_slots() {
    let mut p = Processor::new();
    assert!(p.is_free());
    assert_eq!(p.get_pid(), None);
    p.set_pid(ysos_core::pid::ProcessId(5));
    assert!(!p.is_free());
    assert_eq!(p.get_pid(), Some(ysos_core::pid::ProcessId(5)));

    let mut table = Processors::new();
    processor::set_pid(&mut table, 1, ysos_core::pid::ProcessId(7));
    assert_eq!(processor::get_pid(&table, 1).0, 7);
    // the busy-core listing names exactly the claimed slots
    assert_eq!(processor::print_processors(&table), vec![(1usize, 7u16)]);
}

#[test]
fn gdt_selectors() {
    let s = gdt::get_selector();
    assert_eq!(s.code_selector, 8);
    assert_eq!(s.data_selector, 16);
    assert_eq!(gdt::ist_stack_top(0x1000), 0x2000);
}
