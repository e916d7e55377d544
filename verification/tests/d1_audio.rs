use riscv_vm::devices::d1_audio::{D1AudioEmulated, BUFFER_CAPACITY, D1_AUDIO_BASE};

#[test]
fn samples_queue_only_when_enabled() {
    let mut a = D1AudioEmulated::new();
    assert_eq!(a.sample_rate(), 48000);
    a.mmio_write32(D1_AUDIO_BASE + 0x08, 0x1234_5678);
    assert!(!a.has_samples());
    a.mmio_write32(D1_AUDIO_BASE, 1);
    assert!(a.is_enabled());
    a.mmio_write32(D1_AUDIO_BASE + 0x08, 0x8000_7FFF);
    a.mmio_write32(D1_AUDIO_BASE + 0x08, 0x0001_FFFF);
    assert_eq!(a.buffer_level(), 2);
    assert_eq!(a.mmio_read32(D1_AUDIO_BASE + 0x0C), 2);
    let frames = a.drain_frames(10);
    assert_eq!(frames, vec![(0x7FFF, i16::MIN), (-1, 1)]);
    assert!(!a.has_samples());
}

#[test]
fn status_bits_and_reset() {
    let mut a = D1AudioEmulated::default();
    assert_eq!(a.mmio_read32(D1_AUDIO_BASE + 0x04), 2);
    a.mmio_write32(D1_AUDIO_BASE, 1);
    a.mmio_write32(D1_AUDIO_BASE + 0x08, 5);
    assert_eq!(a.mmio_read32(D1_AUDIO_BASE + 0x04), 0);
    a.mmio_write32(D1_AUDIO_BASE + 0x10, 44100);
    assert_eq!(a.mmio_read32(D1_AUDIO_BASE + 0x10), 44100);
    a.mmio_write32(D1_AUDIO_BASE, 2);
    assert!(!a.is_enabled());
    assert_eq!(a.buffer_level(), 0);
    assert_eq!(a.mmio_read32(D1_AUDIO_BASE), 0);
    assert_eq!(a.sample_rate(), 44100);
    assert_eq!(a.mmio_read8(D1_AUDIO_BASE + 0x11), (44100u32 >> 8) as u8);
}

#[test]
fn full_buffer_drops_oldest() {
    let mut a = D1AudioEmulated::new();
    a.mmio_write32(D1_AUDIO_BASE, 1);
    for i in 0..(BUFFER_CAPACITY as u32 + 3) {
        a.mmio_write32(D1_AUDIO_BASE + 0x08, i);
    }
    assert_eq!(a.buffer_level(), BUFFER_CAPACITY);
    assert_eq!(a.mmio_read32(D1_AUDIO_BASE + 0x04) & 1, 1);
    let first = a.drain_frames(1);
    assert_eq!(first, vec![(3, 0)]);
    assert_eq!(a.buffer_level(), BUFFER_CAPACITY - 1);
}
