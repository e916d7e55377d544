use riscv_vm::devices::uart::{Uart, FCR, IER, IIR, LCR, LSR, RBR, SCR, THR};

#[test]
fn test_basic_io() {
    let mut uart = Uart::new();

    // Push input
    uart.push_input(b'A');
    assert!(uart.get_input().contains(&b'A'));

    // Push output
    uart.push_output(b'B');
    assert_eq!(uart.pop_output(), Some(b'B'));
    assert_eq!(uart.pop_output(), None);
}

#[test]
fn test_register_access() {
    let mut uart = Uart::new();

    // Write to SCR (scratch register)
    uart.store(SCR, 1, 0x42).unwrap();
    assert_eq!(uart.load(SCR, 1).unwrap(), 0x42);

    // Test LCR
    uart.store(LCR, 1, 0x03).unwrap();
    assert_eq!(uart.load(LCR, 1).unwrap(), 0x03);
}

#[test]
fn test_dlab_mode() {
    let mut uart = Uart::new();

    // Enable DLAB
    uart.store(LCR, 1, 0x80).unwrap();

    // Write divisor latch
    uart.store(THR, 1, 0x12).unwrap(); // DLL
    uart.store(IER, 1, 0x34).unwrap(); // DLM

    // Read back
    assert_eq!(uart.load(RBR, 1).unwrap(), 0x12);
    assert_eq!(uart.load(IER, 1).unwrap(), 0x34);

    // Disable DLAB
    uart.store(LCR, 1, 0x00).unwrap();
}

#[test]
fn test_fifo_clear() {
    let mut uart = Uart::new();

    // Add some input
    uart.push_input(b'A');
    uart.push_input(b'B');

    // Add some output
    uart.push_output(b'X');
    uart.push_output(b'Y');

    // Clear RX FIFO (bit 1)
    uart.store(FCR, 1, 0x02).unwrap();
    assert!(uart.get_input().is_empty());

    // Output should still be there
    assert_eq!(uart.get_output().len(), 2);

    // Clear TX FIFO (bit 2)
    uart.store(FCR, 1, 0x04).unwrap();
    assert!(uart.get_output().is_empty());
}

#[test]
fn test_snapshot_restore() {
    let mut uart = Uart::new();

    // Set up some state
    uart.push_input(b'A');
    uart.push_output(b'B');
    uart.store(SCR, 1, 0x55).unwrap();

    // Get snapshot
    let input = uart.get_input();
    let output = uart.get_output();
    let regs = uart.get_registers();

    // Create new UART and restore
    let mut uart2 = Uart::new();
    uart2.set_input(&input);
    uart2.set_output(&output);
    uart2.set_registers(
        regs.0, regs.1, regs.2, regs.3, regs.4, regs.5, regs.6, regs.7, regs.8, regs.9,
    );

    // Verify
    assert_eq!(uart2.get_input(), vec![b'A']);
    assert_eq!(uart2.get_output(), vec![b'B']);
    assert_eq!(uart2.load(SCR, 1).unwrap(), 0x55);
}

#[test]
fn receive_fifo_is_first_in_first_out() {
    let mut uart = Uart::new();
    uart.push_input(b'h');
    uart.push_input(b'i');
    assert_eq!(uart.load(LSR, 1).unwrap() & 1, 1);
    assert_eq!(uart.load(RBR, 1).unwrap(), b'h' as u64);
    assert_eq!(uart.load(RBR, 1).unwrap(), b'i' as u64);
    assert_eq!(uart.load(LSR, 1).unwrap() & 1, 0);
    // Empty FIFO reads zero.
    assert_eq!(uart.load(RBR, 1).unwrap(), 0);
}

#[test]
fn transmit_appends_to_output() {
    let mut uart = Uart::new();
    uart.store(THR, 1, b'o' as u64).unwrap();
    uart.store(THR, 1, b'k' as u64).unwrap();
    uart.push_output_str("!");
    assert_eq!(uart.output_len(), 3);
    assert!(uart.has_output());
    assert_eq!(uart.drain_output(), b"ok!".to_vec());
    assert!(!uart.has_output());
}

#[test]
fn rx_interrupt_follows_ier_and_data() {
    let mut uart = Uart::new();
    assert!(!uart.is_interrupting());
    uart.store(IER, 1, 1).unwrap();
    assert!(!uart.is_interrupting());
    uart.push_input(b'x');
    assert!(uart.is_interrupting());
    assert_eq!(uart.load(IIR, 1).unwrap() & 0x0f, 0x04);
    uart.load(RBR, 1).unwrap();
    assert!(!uart.is_interrupting());
    uart.clear_interrupt();
    assert!(!uart.is_interrupting());
}
