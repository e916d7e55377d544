use riscv_vm::devices::virtio::block::VirtioBlock;
use riscv_vm::devices::virtio::device::VirtioDevice;
use riscv_vm::dram::{Dram, DRAM_BASE};

const DESC: u64 = 0x1000;
const AVAIL: u64 = 0x1100;
const USED: u64 = 0x2000;

fn setup(disk: Vec<u8>) -> (VirtioBlock, Dram) {
    let mut blk = VirtioBlock::new(disk);
    let mut dram = Dram::new(DRAM_BASE, 0x10000);
    blk.write(0x038, 16, &mut dram).unwrap(); // QueueNum
    blk.write(0x040, (DRAM_BASE + DESC) / 4096, &mut dram).unwrap(); // QueuePFN
    (blk, dram)
}

fn desc(d: &mut Dram, idx: u64, addr: u64, len: u32, flags: u16, next: u16) {
    let o = DESC + idx * 16;
    d.store_64(o, addr).unwrap();
    d.store_32(o + 8, len as u64).unwrap();
    d.store_16(o + 12, flags as u64).unwrap();
    d.store_16(o + 14, next as u64).unwrap();
}

fn request(d: &mut Dram, blk_type: u32, sector: u64) {
    d.store_32(0x3000, blk_type as u64).unwrap();
    d.store_32(0x3004, 0).unwrap();
    d.store_64(0x3008, sector).unwrap();
    desc(d, 0, DRAM_BASE + 0x3000, 16, 1, 1);
    desc(d, 1, DRAM_BASE + 0x4000, 512, 3, 2);
    desc(d, 2, DRAM_BASE + 0x5000, 1, 2, 0);
    d.store_8(0x5000, 0xFF).unwrap();
    let idx = d.load_16(AVAIL + 2).unwrap();
    d.store_16(AVAIL + 4 + (idx as u64 % 16) * 2, 0).unwrap();
    d.store_16(AVAIL + 2, idx.wrapping_add(1) as u64).unwrap();
}

#[test]
fn identity_and_capacity_registers() {
    let blk = VirtioBlock::new(vec![0u8; 4096]);
    assert_eq!(blk.read(0x000), Ok(0x7472_6976));
    assert_eq!(blk.read(0x008), Ok(2));
    assert_eq!(blk.read(0x010), Ok(1 << 9));
    assert_eq!(blk.read(0x034), Ok(16));
    assert_eq!(blk.read(0x100), Ok(8));
    assert_eq!(blk.read(0x104), Ok(0));
    assert_eq!(blk.device_id(), 2);
    assert!(!blk.is_interrupting());
}

#[test]
fn queue_pfn_lays_out_rings() {
    let (blk, _d) = setup(vec![]);
    assert_eq!(blk.read(0x044), Ok(1));
    assert_eq!(blk.read(0x038), Ok(16));
}

#[test]
fn read_request_copies_sector_to_guest() {
    let mut disk = vec![0u8; 4096];
    for (i, b) in disk.iter_mut().enumerate() {
        *b = (i * 7 % 256) as u8;
    }
    let (mut blk, mut d) = setup(disk.clone());
    request(&mut d, 0, 1);
    blk.write(0x050, 0, &mut d).unwrap();
    assert_eq!(d.read_range(0x4000, 512).unwrap(), disk[512..1024].to_vec());
    assert_eq!(d.load_8(0x5000), Ok(0));
    assert_eq!(d.load_16(USED + 2), Ok(1));
    assert_eq!(d.load_32(USED + 4), Ok(0));
    assert_eq!(d.load_32(USED + 8), Ok(512));
    assert!(blk.is_interrupting());
    blk.write(0x064, 1, &mut d).unwrap();
    assert!(!blk.is_interrupting());
}

#[test]
fn write_request_stores_guest_data() {
    let (mut blk, mut d) = setup(vec![0u8; 2048]);
    let data: Vec<u8> = (0..512).map(|i| (i % 13) as u8).collect();
    d.write_bytes(0x4000, &data).unwrap();
    request(&mut d, 1, 2);
    blk.write(0x050, 0, &mut d).unwrap();
    assert_eq!(&blk.disk()[1024..1536], &data[..]);
    assert_eq!(&blk.disk()[0..1024], &[0u8; 1024][..]);
    assert_eq!(d.load_32(USED + 8), Ok(512));
}

#[test]
fn out_of_range_sector_transfers_nothing() {
    let (mut blk, mut d) = setup(vec![1u8; 512]);
    request(&mut d, 0, 4);
    blk.write(0x050, 0, &mut d).unwrap();
    assert_eq!(d.load_32(USED + 8), Ok(0));
    assert_eq!(d.load_8(0x4000), Ok(0));
    assert_eq!(d.load_16(USED + 2), Ok(1));
}

#[test]
fn notify_with_nothing_available_changes_nothing() {
    let (mut blk, mut d) = setup(vec![0u8; 512]);
    blk.write(0x050, 0, &mut d).unwrap();
    assert!(!blk.is_interrupting());
    assert_eq!(d.load_16(USED + 2), Ok(0));
}

#[test]
fn unmapped_ring_reports_error() {
    let mut blk = VirtioBlock::new(vec![0u8; 512]);
    let mut d = Dram::new(DRAM_BASE, 0x100);
    // Rings left at address 0 lie below DRAM.
    assert!(blk.write(0x050, 0, &mut d).is_err());
}

#[test]
fn status_zero_resets_device() {
    let (mut blk, mut d) = setup(vec![0u8; 512]);
    blk.write(0x070, 7, &mut d).unwrap();
    assert_eq!(blk.read(0x070), Ok(7));
    blk.write(0x070, 0, &mut d).unwrap();
    assert_eq!(blk.read(0x070), Ok(0));
    assert_eq!(blk.read(0x044), Ok(0));
    blk.write(0x080, 0x1234, &mut d).unwrap();
    blk.write(0x084, 0x1, &mut d).unwrap();
    blk.write(0x014, 1, &mut d).unwrap();
    assert_eq!(blk.read(0x010), Ok(0));
}
