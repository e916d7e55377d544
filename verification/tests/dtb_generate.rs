use riscv_vm::dtb::{
    generate_for, AttachedDevices, DtPlic, DtUart, DtVirtio, DtWindow, MemoryMap, DTB_MAX_SIZE, FDT_MAGIC,
    FDT_VERSION,
};

const ISA: &str = "rv64imac_zicsr_zifencei";

/// A QEMU-virt-like map, written out by the test.
fn virt_map() -> MemoryMap {
    MemoryMap {
        compatible: vec!["riscv-virtio".to_string()],
        model: "riscv-virtio,qemu".to_string(),
        isa: ISA.to_string(),
        timebase_hz: 10_000_000,
        dram_base: 0x8000_0000,
        clint: Some(DtWindow { base: 0x0200_0000, size: 0x1_0000 }),
        plic: DtPlic { base: 0x0C00_0000, dtb_size: 0x60_0000, ndev: 31, compatible: "sifive,plic-1.0.0".to_string() },
        uart: DtUart { base: 0x1000_0000, size: 0x100, irq: 10, compatible: "ns16550a".to_string() },
        virtio: Some(DtVirtio { base: 0x1000_1000, stride: 0x1000, max_slots: 8 }),
        d1_peripherals: false,
    }
}

/// An Allwinner-D1-like map, written out by the test.
fn d1_map() -> MemoryMap {
    MemoryMap {
        compatible: vec!["allwinner,sun20i-d1".to_string()],
        model: "Allwinner D1".to_string(),
        isa: ISA.to_string(),
        timebase_hz: 24_000_000,
        dram_base: 0x4000_0000,
        clint: None,
        plic: DtPlic { base: 0x1000_0000, dtb_size: 0x400_0000, ndev: 200, compatible: "allwinner,sun20i-d1-plic".to_string() },
        uart: DtUart { base: 0x0250_0000, size: 0x400, irq: 18, compatible: "snps,dw-apb-uart".to_string() },
        virtio: None,
        d1_peripherals: true,
    }
}

fn text(dtb: &[u8]) -> String {
    String::from_utf8_lossy(dtb).into_owned()
}

#[test]
fn test_generate_dtb() {
    let config = AttachedDevices {
        has_display: true,
        has_mmc: true,
        has_emac: true,
        has_touch: true,
        has_audio: true,
        virtio_count: 2,
    };
    let dtb = generate_for(&virt_map(), 2, 512 * 1024 * 1024, &config);
    assert_eq!(dtb[0..4], FDT_MAGIC.to_be_bytes());
    assert!(dtb.len() > 100);
    assert!(dtb.len() < DTB_MAX_SIZE);
    let text = text(&dtb);
    assert!(text.contains("riscv-virtio,qemu"));
    assert!(!text.contains("allwinner,sun20i-d1"));
    assert!(text.contains(ISA));
}

#[test]
fn d1_dtb_uses_d1_map() {
    let dtb = generate_for(
        &d1_map(),
        1,
        512 * 1024 * 1024,
        &AttachedDevices { has_mmc: true, has_emac: true, ..Default::default() },
    );
    let text = text(&dtb);
    assert!(text.contains("allwinner,sun20i-d1"));
    assert!(text.contains("memory@40000000"));
    assert!(text.contains("serial@2500000"));
    assert!(!text.contains("virtio,mmio"));
    assert!(!text.contains("riscv,clint0"));
}

#[test]
fn test_dtb_structure() {
    let config = AttachedDevices::default();
    let dtb = generate_for(&virt_map(), 1, 256 * 1024 * 1024, &config);
    assert_eq!(dtb[0..4], FDT_MAGIC.to_be_bytes());
    assert!(dtb.len() > 60);
    let version = u32::from_be_bytes([dtb[20], dtb[21], dtb[22], dtb[23]]);
    assert_eq!(version, FDT_VERSION);
}

#[test]
fn nodes_follow_the_harts_and_attached_devices() {
    let config = AttachedDevices { virtio_count: 3, ..Default::default() };
    let dtb = generate_for(&virt_map(), 12, 0x1000_0000, &config);
    let text = text(&dtb);
    // Hart numbers are decimal, addresses lower-case hexadecimal.
    assert!(text.contains("cpu@0"));
    assert!(text.contains("cpu@11"));
    assert!(!text.contains("cpu@12"));
    assert!(text.contains("virtio@10001000"));
    assert!(text.contains("virtio@10003000"));
    assert!(!text.contains("virtio@10004000"));
    assert!(text.contains("/soc/serial@10000000"));
    assert!(text.contains("interrupt-controller@c000000"));
    // Total size field is the blob's length.
    let total = u32::from_be_bytes([dtb[4], dtb[5], dtb[6], dtb[7]]);
    assert_eq!(total as usize, dtb.len());
    // More VirtIO devices than windows: only the windows are listed.
    let many = generate_for(&virt_map(), 1, 0x1000_0000, &AttachedDevices { virtio_count: 20, ..Default::default() });
    let many = String::from_utf8_lossy(&many).into_owned();
    assert!(many.contains("virtio@10008000"));
    assert!(!many.contains("virtio@10009000"));
}

#[test]
fn d1_peripherals_only_on_a_d1_map() {
    let all = AttachedDevices {
        has_display: true,
        has_mmc: true,
        has_emac: true,
        has_touch: true,
        has_audio: true,
        virtio_count: 0,
    };
    let d1 = text(&generate_for(&d1_map(), 1, 0x1000_0000, &all));
    for node in ["display-engine@5100000", "lcd-controller@5461000", "mmc@4020000", "ethernet@4500000", "i2c@2502000",
        "touchscreen@14", "codec@2030000"] {
        assert!(d1.contains(node), "{node}");
    }
    let virt = text(&generate_for(&virt_map(), 1, 0x1000_0000, &all));
    assert!(!virt.contains("mmc@4020000"));
}
