use riscv_vm::devices::virtio::device::VirtioDevice;
use riscv_vm::devices::virtio::gpu::VirtioGpu;
use riscv_vm::dram::{Dram, DRAM_BASE};

const DESC: u64 = 0x1000;
const AVAIL: u64 = 0x1100;
const USED: u64 = 0x2000;
const CMD: u64 = 0x3000;
const RESP: u64 = 0x4000;
const PAGES: u64 = 0x6000;

fn setup() -> (VirtioGpu, Dram) {
    let mut gpu = VirtioGpu::new();
    let mut dram = Dram::new(DRAM_BASE, 0x10000);
    gpu.write(0x038, 16, &mut dram).unwrap(); // QueueNum
    gpu.write(0x040, (DRAM_BASE + DESC) / 4096, &mut dram).unwrap(); // QueuePFN
    (gpu, dram)
}

fn desc(d: &mut Dram, idx: u64, addr: u64, len: u32, flags: u16, next: u16) {
    let o = DESC + idx * 16;
    d.store_64(o, addr).unwrap();
    d.store_32(o + 8, len as u64).unwrap();
    d.store_16(o + 12, flags as u64).unwrap();
    d.store_16(o + 14, next as u64).unwrap();
}

/// Write a command (header type plus 32-bit body words) and notify the device.
fn submit(gpu: &mut VirtioGpu, d: &mut Dram, cmd_type: u32, body: &[u32]) {
    d.store_32(CMD, cmd_type as u64).unwrap();
    for k in 1..6 {
        d.store_32(CMD + k * 4, 0).unwrap();
    }
    for (i, w) in body.iter().enumerate() {
        d.store_32(CMD + 24 + (i as u64) * 4, *w as u64).unwrap();
    }
    desc(d, 0, DRAM_BASE + CMD, 24 + 4 * body.len() as u32, 1, 1);
    desc(d, 1, DRAM_BASE + RESP, 512, 2, 0);
    let idx = d.load_16(AVAIL + 2).unwrap();
    d.store_16(AVAIL + 4 + (idx as u64 % 16) * 2, 0).unwrap();
    d.store_16(AVAIL + 2, idx.wrapping_add(1) as u64).unwrap();
    gpu.write(0x050, 0, d).unwrap();
}

fn last_used_len(d: &Dram) -> u32 {
    let idx = d.load_16(USED + 2).unwrap();
    let slot = (idx.wrapping_sub(1) as u64) % 16;
    d.load_32(USED + 4 + slot * 8 + 4).unwrap()
}

#[test]
fn identity_registers_and_display_size() {
    let gpu = VirtioGpu::new();
    assert_eq!(gpu.read(0x000), Ok(0x7472_6976));
    assert_eq!(gpu.read(0x008), Ok(16));
    assert_eq!(gpu.read(0x010), Ok(0));
    assert_eq!(gpu.read(0x034), Ok(16));
    assert_eq!(gpu.read(0x108), Ok(1));
    assert_eq!(gpu.read(0x100), Ok(0));
    assert_eq!(gpu.device_id(), 16);
    assert_eq!(gpu.display_size(), (800, 600));
    assert_eq!(VirtioGpu::with_size(1024, 768).display_size(), (1024, 768));
    assert!(!gpu.is_interrupting());
}

#[test]
fn no_frame_before_any_flush() {
    let mut gpu = VirtioGpu::default();
    assert!(!gpu.has_pending_frame());
    assert!(gpu.take_pending_frame().is_none());
}

#[test]
fn unconfigured_queue_ignores_notify() {
    let mut gpu = VirtioGpu::new();
    let mut d = Dram::new(DRAM_BASE, 0x1000);
    assert_eq!(gpu.write(0x050, 0, &mut d), Ok(()));
    assert!(!gpu.is_interrupting());
}

#[test]
fn display_info_reports_display() {
    let (mut gpu, mut d) = setup();
    submit(&mut gpu, &mut d, 0x0100, &[]);
    assert_eq!(d.load_32(RESP), Ok(0x1101));
    assert_eq!(d.load_32(RESP + 32), Ok(800));
    assert_eq!(d.load_32(RESP + 36), Ok(600));
    assert_eq!(d.load_32(RESP + 40), Ok(1));
    assert_eq!(d.load_32(RESP + 24 + 24 + 8), Ok(0));
    assert_eq!(d.load_16(USED + 2), Ok(1));
    assert_eq!(last_used_len(&d), 408);
    assert!(gpu.is_interrupting());
    gpu.write(0x064, 1, &mut d).unwrap();
    assert!(!gpu.is_interrupting());
}

#[test]
fn unknown_command_gets_error_response() {
    let (mut gpu, mut d) = setup();
    submit(&mut gpu, &mut d, 0x0999, &[]);
    assert_eq!(d.load_32(RESP), Ok(0x1200));
    assert_eq!(last_used_len(&d), 24);
}

#[test]
fn flushed_scanout_becomes_pending_frame() {
    let (mut gpu, mut d) = setup();
    // 2x2 resource 7.
    submit(&mut gpu, &mut d, 0x0101, &[7, 67, 2, 2]);
    assert_eq!(d.load_32(RESP), Ok(0x1100));
    // One backing entry of 16 bytes at PAGES.
    submit(&mut gpu, &mut d, 0x0106, &[7, 1, (DRAM_BASE + PAGES) as u32, ((DRAM_BASE + PAGES) >> 32) as u32, 16, 0]);
    let pixels: Vec<u8> = (1..=16).collect();
    for (i, b) in pixels.iter().enumerate() {
        d.store_8(PAGES + i as u64, *b as u64).unwrap();
    }
    // Scanout 0 shows resource 7.
    submit(&mut gpu, &mut d, 0x0103, &[0, 0, 2, 2, 0, 7]);
    // Transfer: rect, 64-bit offset, resource 7.
    submit(&mut gpu, &mut d, 0x0105, &[0, 0, 2, 2, 0, 0, 7, 0]);
    assert!(!gpu.has_pending_frame());
    submit(&mut gpu, &mut d, 0x0104, &[0, 0, 2, 2, 7]);
    assert!(gpu.has_pending_frame());
    let (w, h, frame) = gpu.take_pending_frame().unwrap();
    assert_eq!((w, h), (800, 600));
    assert_eq!(frame, pixels);
    assert!(!gpu.has_pending_frame());
    assert!(gpu.take_pending_frame().is_none());
    assert_eq!(d.load_16(USED + 2), Ok(5));
}

#[test]
fn flush_without_scanout_leaves_no_frame() {
    let (mut gpu, mut d) = setup();
    submit(&mut gpu, &mut d, 0x0101, &[3, 67, 1, 1]);
    submit(&mut gpu, &mut d, 0x0104, &[0, 0, 1, 1, 3]);
    assert!(!gpu.has_pending_frame());
    // After unref the resource is gone: a scanout on it flushes nothing.
    submit(&mut gpu, &mut d, 0x0102, &[3]);
    submit(&mut gpu, &mut d, 0x0103, &[0, 0, 1, 1, 0, 3]);
    submit(&mut gpu, &mut d, 0x0104, &[0, 0, 1, 1, 3]);
    assert!(!gpu.has_pending_frame());
}
