use riscv_vm::devices::d1_emac::{D1EmacEmulated, D1_EMAC_BASE};
use riscv_vm::dram::{Dram, DRAM_BASE};

fn enable_dma(e: &mut D1EmacEmulated) {
    e.mmio_write32(D1_EMAC_BASE + 0x10, 1 << 31);
    e.mmio_write32(D1_EMAC_BASE + 0x14, 1 << 30);
    e.mmio_write32(D1_EMAC_BASE + 0x24, 1 << 31);
    e.mmio_write32(D1_EMAC_BASE + 0x28, 1 << 30);
}

fn put_desc(d: &mut Dram, off: u64, status: u32, size: u32, buf: u32, next: u32) {
    d.store_32(off, status as u64).unwrap();
    d.store_32(off + 4, size as u64).unwrap();
    d.store_32(off + 8, buf as u64).unwrap();
    d.store_32(off + 12, next as u64).unwrap();
}

#[test]
fn transmit_descriptor_hands_frame_to_host() {
    let mut e = D1EmacEmulated::new();
    let mut d = Dram::new(DRAM_BASE, 0x10000);
    enable_dma(&mut e);
    d.write_bytes(0x1000, &[1, 2, 3, 4, 5]).unwrap();
    put_desc(&mut d, 0x100, 1 << 31, 5, 0x8000_1000, 0x8000_0110);
    e.mmio_write32(D1_EMAC_BASE + 0x20, 0x8000_0100);
    e.poll_dma(&mut d);
    assert_eq!(e.get_tx_packets(), vec![vec![1, 2, 3, 4, 5]]);
    assert!(e.get_tx_packets().is_empty());
    assert_eq!(d.load_32(0x100).unwrap() & (1 << 31), 0, "OWN cleared");
    assert_eq!(e.mmio_read32(D1_EMAC_BASE + 0x20), 0x8000_0110);
    // Descriptor no longer owned by DMA: nothing more is sent.
    e.mmio_write32(D1_EMAC_BASE + 0x20, 0x8000_0100);
    e.poll_dma(&mut d);
    assert!(e.tx_queue().is_empty());
}

#[test]
fn receive_descriptor_takes_oldest_frame() {
    let mut e = D1EmacEmulated::new();
    let mut d = Dram::new(DRAM_BASE, 0x10000);
    enable_dma(&mut e);
    e.queue_rx_packet(vec![9, 8, 7, 6]);
    e.queue_rx_packet(vec![5]);
    assert_eq!(e.mmio_read32(D1_EMAC_BASE + 0xC0), 1);
    put_desc(&mut d, 0x200, 1 << 31, 3 << 16, 0x8000_2000, 0x8000_0210);
    e.mmio_write32(D1_EMAC_BASE + 0x34, 0x8000_0200);
    e.poll_dma(&mut d);
    // Buffer of 3 bytes: frame truncated.
    assert_eq!(d.read_range(0x2000, 4).unwrap(), vec![9, 8, 7, 0]);
    assert_eq!(d.load_32(0x200).unwrap(), (1 << 29) | (1 << 30) | (3 << 16));
    assert_eq!(e.mmio_read32(D1_EMAC_BASE + 0x08), 0x100);
    assert_eq!(e.mmio_read32(D1_EMAC_BASE + 0x34), 0x8000_0210);
    assert_eq!(e.rx_queue(), vec![vec![5]]);
    e.mmio_write32(D1_EMAC_BASE + 0x08, 0x100);
    assert_eq!(e.mmio_read32(D1_EMAC_BASE + 0x08), 0);
}

#[test]
fn mac_and_ip_registers() {
    let mut e = D1EmacEmulated::with_mac([0x02, 0x11, 0x22, 0x33, 0x44, 0x55]);
    assert_eq!(e.mmio_read32(D1_EMAC_BASE + 0x54), 0x3322_1102);
    assert_eq!(e.mmio_read32(D1_EMAC_BASE + 0x50), 0x5544);
    assert_eq!(e.mmio_read8(D1_EMAC_BASE + 0x55), 0x11);
    assert_eq!(e.get_ip(), None);
    assert_eq!(e.mmio_read32(D1_EMAC_BASE + 0x100), 0);
    e.set_ip([10, 0, 2, 15]);
    assert_eq!(e.get_ip(), Some([10, 0, 2, 15]));
    assert_eq!(e.mmio_read32(D1_EMAC_BASE + 0x100), 0x0A00_020F);
}

#[test]
fn mii_reads_and_writes_phy() {
    let mut e = D1EmacEmulated::default();
    // read PHYSID1 (reg 2): busy | read flag | reg << 4
    e.mmio_write32(D1_EMAC_BASE + 0x48, 1 | 2 | (2 << 4));
    assert_eq!(e.mmio_read32(D1_EMAC_BASE + 0x4C), 0x001C);
    assert_eq!(e.mmio_read32(D1_EMAC_BASE + 0x48) & 1, 0);
    e.mmio_write32(D1_EMAC_BASE + 0x48, 1 | 2 | (1 << 4));
    assert_eq!(e.mmio_read32(D1_EMAC_BASE + 0x4C), 0x786D);
    // write BMCR
    e.mmio_write32(D1_EMAC_BASE + 0x4C, 0x3100);
    e.mmio_write32(D1_EMAC_BASE + 0x48, 1);
    e.mmio_write32(D1_EMAC_BASE + 0x48, 1 | 2);
    assert_eq!(e.mmio_read32(D1_EMAC_BASE + 0x4C), 0x3100);
    e.mmio_write32(D1_EMAC_BASE + 0x48, 1 | 2 | (9 << 4));
    assert_eq!(e.mmio_read32(D1_EMAC_BASE + 0x4C), 0xFFFF);
    e.mmio_write32(D1_EMAC_BASE + 0x04, 3);
    assert_eq!(e.mmio_read32(D1_EMAC_BASE + 0x04), 2);
    assert!(!e.is_tx_enabled());
    assert!(!e.is_rx_enabled());
}
