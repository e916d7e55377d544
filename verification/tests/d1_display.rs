use riscv_vm::devices::d1_display::{D1DisplayEmulated, D1_DE_BASE, D1_MIPI_DSI_BASE, D1_TCON_LCD0, FRAMEBUFFER_SIZE};

#[test]
fn reset_state() {
    let d = D1DisplayEmulated::new();
    assert_eq!((d.width(), d.height()), (1024, 768));
    assert!(!d.is_enabled());
    assert_eq!(d.mmio_read32(D1_DE_BASE + 0x000C), (767 << 16) | 1023);
    assert_eq!(d.mmio_read32(D1_DE_BASE + 0x300C), 4096);
    assert_eq!(d.framebuffer().len(), 1024 * 768);
    assert!(d.framebuffer().iter().all(|&p| p == 0xFF00_0000));
}

#[test]
fn layer_registers_read_back() {
    let mut d = D1DisplayEmulated::default();
    d.mmio_write32(D1_DE_BASE + 0x3010, 0x4200_0000);
    d.mmio_write32(D1_DE_BASE + 0x3008, 0x0010_0020);
    d.mmio_write32(D1_TCON_LCD0 + 0x40, 7);
    assert_eq!(d.mmio_read32(D1_DE_BASE + 0x3010), 0x4200_0000);
    assert_eq!(d.mmio_read32(D1_DE_BASE + 0x3008), 0x0010_0020);
    assert_eq!(d.mmio_read32(D1_TCON_LCD0 + 0x40), 7);
    assert_eq!(d.mmio_read8(D1_DE_BASE + 0x3011), 0x00);
    assert_eq!(d.mmio_read8(D1_DE_BASE + 0x3013), 0x42);
    d.mmio_write32(D1_MIPI_DSI_BASE, 0xFFFF_FFFF);
    assert_eq!(d.mmio_read32(D1_MIPI_DSI_BASE), 0);
}

#[test]
fn enable_via_de_or_tcon() {
    let mut d = D1DisplayEmulated::new();
    d.mmio_write32(D1_DE_BASE, 1);
    assert!(d.is_enabled());
    d.mmio_write32(D1_DE_BASE, 0);
    assert!(!d.is_enabled());
    d.mmio_write32(D1_TCON_LCD0, 0x8000_0000);
    assert!(d.is_enabled());
    assert_eq!(d.mmio_read32(D1_TCON_LCD0), 0x8000_0000);
}

#[test]
fn framebuffer_copied_only_when_enabled() {
    let mut mem = vec![0u8; FRAMEBUFFER_SIZE + 16];
    mem[16..20].copy_from_slice(&[0x44, 0x33, 0x22, 0x11]);
    let mut d = D1DisplayEmulated::new();
    d.update_framebuffer_from_memory(&mem, 16);
    assert_eq!(d.framebuffer()[0], 0xFF00_0000);
    d.mmio_write32(D1_DE_BASE, 1);
    d.update_framebuffer_from_memory(&mem, 32); // would run past the end
    assert_eq!(d.framebuffer()[0], 0xFF00_0000);
    d.update_framebuffer_from_memory(&mem, 16);
    assert_eq!(d.framebuffer()[0], 0x1122_3344);
    assert_eq!(d.framebuffer()[1], 0);
    let bytes = d.framebuffer_bytes();
    assert_eq!(bytes.len(), FRAMEBUFFER_SIZE);
    assert_eq!(&bytes[0..4], &[0x22, 0x33, 0x44, 0x11]);
}
