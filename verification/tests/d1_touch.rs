use riscv_vm::devices::d1_touch::{D1TouchEmulated, D1_I2C2_BASE};

fn rd(t: &mut D1TouchEmulated, off: u64) -> u32 {
    t.mmio_read32(D1_I2C2_BASE + off)
}

#[test]
fn touch_press_is_served_at_once() {
    let mut t = D1TouchEmulated::new();
    assert!(!t.is_int_pending());
    t.push_touch(100, 200, true);
    assert!(t.is_int_pending());
    assert_eq!(rd(&mut t, 0x104), 0x81);
    assert_eq!(rd(&mut t, 0x108), 100);
    assert_eq!(rd(&mut t, 0x10C), 200);
    assert_eq!(rd(&mut t, 0x110), 1);
    // GT911 register view of the same point.
    assert_eq!(t.read_register(0x814E), 0x81);
    assert_eq!(t.read_register(0x8150), 100);
    assert_eq!(t.read_register(0x8151), 0);
    assert_eq!(t.read_register(0x8152), 200);
    assert_eq!(t.read_register(0x8154), 50);
}

#[test]
fn coordinates_are_clamped_to_panel() {
    let mut t = D1TouchEmulated::new();
    t.push_touch(5000, 5000, true);
    assert_eq!(rd(&mut t, 0x108), 1023);
    assert_eq!(rd(&mut t, 0x10C), 767);
}

#[test]
fn queued_events_served_in_order_on_ack() {
    let mut t = D1TouchEmulated::new();
    t.push_touch(10, 20, true);
    t.push_touch(30, 40, true);
    t.push_touch(0, 0, false);
    assert_eq!(rd(&mut t, 0x108), 10);
    t.mmio_write32(D1_I2C2_BASE + 0x104, 0);
    assert_eq!(rd(&mut t, 0x108), 30);
    assert_eq!(rd(&mut t, 0x10C), 40);
    t.mmio_write32(D1_I2C2_BASE + 0x104, 0);
    // release: no points, buffer ready
    assert_eq!(rd(&mut t, 0x104), 0x80);
    assert_eq!(rd(&mut t, 0x110), 0);
    t.mmio_write32(D1_I2C2_BASE + 0x104, 0);
    assert_eq!(rd(&mut t, 0x104), 0);
}

#[test]
fn interrupt_ack_waits_for_buffer() {
    let mut t = D1TouchEmulated::new();
    t.push_touch(1, 1, true);
    // Buffer ready: INT ack is ignored.
    t.mmio_write32(D1_I2C2_BASE + 0x100, 0);
    assert_eq!(rd(&mut t, 0x100), 1);
    t.mmio_write32(D1_I2C2_BASE + 0x104, 0);
    t.mmio_write32(D1_I2C2_BASE + 0x100, 0);
    assert_eq!(rd(&mut t, 0x100), 0);
    t.push_touch(2, 2, true);
    t.clear_int();
    assert!(!t.is_int_pending());
}

#[test]
fn keys_and_chars_are_fifo() {
    let mut t = D1TouchEmulated::new();
    t.push_key(30, true);
    t.push_key(30, false);
    t.push_char(b'a');
    t.push_char(b'/');
    assert_eq!(rd(&mut t, 0x11C), 2);
    assert_eq!(rd(&mut t, 0x120), 30);
    assert_eq!(rd(&mut t, 0x124), 1);
    t.mmio_write32(D1_I2C2_BASE + 0x11C, 0);
    assert_eq!(rd(&mut t, 0x124), 0);
    assert_eq!(rd(&mut t, 0x128), 2);
    assert_eq!(rd(&mut t, 0x12C), b'a' as u32);
    t.mmio_write32(D1_I2C2_BASE + 0x128, 0);
    assert_eq!(rd(&mut t, 0x12C), b'/' as u32);
    t.mmio_write32(D1_I2C2_BASE + 0x128, 0);
    assert_eq!(rd(&mut t, 0x128), 0);
    assert_eq!(rd(&mut t, 0x12C), 0);
}

#[test]
fn identity_registers() {
    let t = D1TouchEmulated::default();
    assert_eq!(t.read_register(0x8140), b'9');
    assert_eq!(t.read_register(0x8141), b'1');
    assert_eq!(t.read_register(0x8142), b'1');
    assert_eq!(t.read_register(0x8143), 0);
    assert_eq!(t.read_register(0x8146), 0x00);
    assert_eq!(t.read_register(0x8147), 0x04);
    assert_eq!(t.read_register(0x8148), 0x00);
    assert_eq!(t.read_register(0x8149), 0x03);
    assert_eq!(t.mmio_read8(D1_I2C2_BASE), 0);
}

#[test]
fn status_register_write_clears_buffer_ready() {
    let mut t = D1TouchEmulated::new();
    t.push_touch(3, 4, true);
    t.write_register(0x814E, 0);
    assert_eq!(t.read_register(0x814E), 0x01);
    t.push_touch(5, 6, true); // queued behind nothing: served at once
    t.write_register(0x8040, 0);
    assert_eq!(t.read_register(0x814E) & 0x80, 0);
}
