use riscv_vm::devices::virtio::device::VirtioDevice;
use riscv_vm::devices::virtio::input::{js_keycode_to_linux, VirtioInput, KEY_A, KEY_ENTER, KEY_ESC};
use riscv_vm::dram::{Dram, DRAM_BASE};

const DESC: u64 = 0x1000;
const AVAIL: u64 = 0x1100;
const USED: u64 = 0x2000;
const BUF: u64 = 0x3000;

fn setup() -> (VirtioInput, Dram) {
    let mut input = VirtioInput::new();
    let mut dram = Dram::new(DRAM_BASE, 0x10000);
    input.write(0x030, 0, &mut dram).unwrap(); // QueueSel: event queue
    input.write(0x038, 16, &mut dram).unwrap(); // QueueNum
    input.write(0x040, (DRAM_BASE + DESC) / 4096, &mut dram).unwrap(); // QueuePFN
    (input, dram)
}

/// Offer `n` writable 8-byte buffers on the event queue.
fn offer_buffers(d: &mut Dram, n: u64) {
    for i in 0..n {
        let o = DESC + i * 16;
        d.store_64(o, DRAM_BASE + BUF + i * 8).unwrap();
        d.store_32(o + 8, 8).unwrap();
        d.store_16(o + 12, 2).unwrap();
        d.store_16(o + 14, 0).unwrap();
        d.store_16(AVAIL + 4 + i * 2, i).unwrap();
    }
    d.store_16(AVAIL + 2, n).unwrap();
}

#[test]
fn keycode_table() {
    assert_eq!(js_keycode_to_linux(65), Some(KEY_A));
    assert_eq!(js_keycode_to_linux(13), Some(KEY_ENTER));
    assert_eq!(js_keycode_to_linux(27), Some(KEY_ESC));
    assert_eq!(js_keycode_to_linux(1000), None);
}

#[test]
fn identity_and_config_space() {
    let mut input = VirtioInput::default();
    let mut d = Dram::new(DRAM_BASE, 0x1000);
    assert_eq!(input.read(0x000), Ok(0x7472_6976));
    assert_eq!(input.read(0x008), Ok(18));
    assert_eq!(input.device_id(), 18);
    input.write(0x100, 1, &mut d).unwrap(); // select device name
    assert_eq!(input.read(0x102), Ok(16));
    assert_eq!(input.read(0x108), Ok(b'V' as u64));
    input.write(0x100, 2, &mut d).unwrap(); // select serial
    assert_eq!(input.read(0x102), Ok(8));
    assert_eq!(input.read(0x108), Ok(b'1' as u64));
}

#[test]
fn key_press_queues_key_and_sync() {
    let mut input = VirtioInput::new();
    assert!(!input.has_pending_events());
    input.push_key_event(KEY_A, true);
    assert!(input.has_pending_events());
}

#[test]
fn poll_delivers_events_in_order() {
    let (mut input, mut d) = setup();
    offer_buffers(&mut d, 4);
    input.push_key_event(KEY_A, true);
    input.poll(&mut d).unwrap();
    // Key event, then the sync event.
    assert_eq!(d.load_16(BUF), Ok(1));
    assert_eq!(d.load_16(BUF + 2), Ok(KEY_A as u16));
    assert_eq!(d.load_32(BUF + 4), Ok(1));
    assert_eq!(d.load_16(BUF + 8), Ok(0));
    assert_eq!(d.load_16(USED + 2), Ok(2));
    assert_eq!(d.load_32(USED + 4 + 4), Ok(8));
    assert!(!input.has_pending_events());
    assert!(input.is_interrupting());
}

#[test]
fn poll_without_buffers_keeps_events() {
    let (mut input, mut d) = setup();
    input.push_key_event(KEY_A, false);
    input.poll(&mut d).unwrap();
    assert!(input.has_pending_events());
    assert!(!input.is_interrupting());
}
