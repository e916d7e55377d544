use riscv_vm::devices::d1_mmc::{D1MmcEmulated, D1_MMC0_BASE};

const CMD: u64 = 0x18;
const ARG: u64 = 0x1C;
const RESP0: u64 = 0x20;
const RINT: u64 = 0x38;
const STATUS: u64 = 0x3C;
const FIFO: u64 = 0x200;
const START: u32 = 0x8000_0000;

fn cmd(m: &mut D1MmcEmulated, idx: u32, arg: u32) {
    m.mmio_write32(D1_MMC0_BASE + ARG, arg);
    m.mmio_write32(D1_MMC0_BASE + CMD, START | idx);
}

#[test]
fn read_single_block_fills_fifo() {
    let mut disk = vec![0u8; 4096];
    for (i, b) in disk.iter_mut().enumerate() {
        *b = (i % 251) as u8;
    }
    let mut m = D1MmcEmulated::new(disk.clone());
    cmd(&mut m, 17, 2);
    assert_eq!(m.mmio_read32(D1_MMC0_BASE + RINT) & 4, 4);
    assert_eq!(m.mmio_read32(D1_MMC0_BASE + STATUS) & 4, 0);
    assert_eq!(m.mmio_read32(D1_MMC0_BASE + CMD) & START, 0);
    for w in 0..128 {
        let o = 1024 + w * 4;
        let expect = u32::from_le_bytes([disk[o], disk[o + 1], disk[o + 2], disk[o + 3]]);
        assert_eq!(m.mmio_read32(D1_MMC0_BASE + FIFO), expect);
    }
    assert_eq!(m.mmio_read32(D1_MMC0_BASE + RINT) & 8, 8, "data over");
    assert_eq!(m.mmio_read32(D1_MMC0_BASE + STATUS) & 4, 4, "fifo empty");
    assert_eq!(m.mmio_read32(D1_MMC0_BASE + FIFO), 0);
}

#[test]
fn write_block_then_read_back() {
    let mut m = D1MmcEmulated::new(vec![0u8; 2048]);
    cmd(&mut m, 24, 1);
    for w in 0..128u32 {
        m.mmio_write32(D1_MMC0_BASE + FIFO, 0xA000_0000 | w);
    }
    assert_eq!(m.mmio_read32(D1_MMC0_BASE + RINT) & 8, 8);
    assert_eq!(&m.disk()[512..516], &[0, 0, 0, 0xA0]);
    assert_eq!(m.disk()[0], 0);
    cmd(&mut m, 17, 1);
    for w in 0..128u32 {
        assert_eq!(m.mmio_read32(D1_MMC0_BASE + FIFO), 0xA000_0000 | w);
    }
}

#[test]
fn out_of_range_sector_reads_nothing() {
    let mut m = D1MmcEmulated::new(vec![7u8; 512]);
    cmd(&mut m, 17, 5);
    assert_eq!(m.mmio_read32(D1_MMC0_BASE + FIFO), 0);
}

#[test]
fn identification_responses() {
    let mut m = D1MmcEmulated::new(vec![0u8; 2 * 1024 * 1024]);
    cmd(&mut m, 8, 0x1AA);
    assert_eq!(m.mmio_read32(D1_MMC0_BASE + RESP0), 0x1AA);
    cmd(&mut m, 41, 0);
    assert_eq!(m.mmio_read32(D1_MMC0_BASE + RESP0), 0xC0FF_8000);
    cmd(&mut m, 55, 0);
    assert_eq!(m.mmio_read32(D1_MMC0_BASE + RESP0), 0x120);
    cmd(&mut m, 2, 0);
    assert_eq!(m.mmio_read32(D1_MMC0_BASE + 0x2C), 0x5566_7788);
    cmd(&mut m, 3, 0);
    assert_eq!(m.mmio_read32(D1_MMC0_BASE + RESP0), 0x1_0000);
    cmd(&mut m, 7, 0);
    assert_eq!(m.mmio_read32(D1_MMC0_BASE + RESP0), 0x900);
    // 2 MiB = 4096 sectors -> C_SIZE = 4096/1024 - 1 = 3
    cmd(&mut m, 9, 0);
    assert_eq!(m.mmio_read32(D1_MMC0_BASE + RESP0), (3 << 16) | 0x40_0E00);
    cmd(&mut m, 63, 0);
    assert_eq!(m.mmio_read32(D1_MMC0_BASE + RESP0), 0);
}

#[test]
fn control_and_status_registers() {
    let mut m = D1MmcEmulated::with_disk(vec![]);
    m.mmio_write32(D1_MMC0_BASE, 0xFF);
    assert_eq!(m.mmio_read32(D1_MMC0_BASE), 0xF8);
    m.mmio_write32(D1_MMC0_BASE + 0x04, 0x11);
    assert_eq!(m.mmio_read32(D1_MMC0_BASE + 0x04), 0x11);
    assert_eq!(m.mmio_read32(D1_MMC0_BASE + 0x10), 512);
    // clock update: acknowledged without running a command
    m.mmio_write32(D1_MMC0_BASE + CMD, START | (1 << 21) | 17);
    assert_eq!(m.mmio_read32(D1_MMC0_BASE + CMD), (1 << 21) | 17);
    assert_eq!(m.mmio_read32(D1_MMC0_BASE + RINT), 0);
    cmd(&mut m, 0, 0);
    assert_eq!(m.mmio_read32(D1_MMC0_BASE + RINT), 4);
    m.mmio_write32(D1_MMC0_BASE + RINT, 4);
    assert_eq!(m.mmio_read32(D1_MMC0_BASE + RINT), 0);
    assert_eq!(m.mmio_read8(D1_MMC0_BASE + 0x11), 2);
}
