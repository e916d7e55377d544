use riscv_vm::bus::{Bus, SystemBus, DRAM_BASE, TEST_FINISHER_BASE, VIRTIO_BASE, VIRTIO_STRIDE};
use riscv_vm::cpu::types::Trap;
use riscv_vm::devices::clint::{CLINT_BASE, MTIMECMP_OFFSET, MTIME_OFFSET};
use riscv_vm::devices::d1_emac::{D1EmacEmulated, D1_EMAC_BASE};
use riscv_vm::devices::d1_mmc::D1_MMC0_BASE;
use riscv_vm::devices::plic::PLIC_BASE;
use riscv_vm::devices::uart::UART_BASE;
use riscv_vm::devices::virtio::any::AnyVirtio;
use riscv_vm::devices::virtio::block::VirtioBlock;
use riscv_vm::devices::virtio::input::VirtioInput;
use riscv_vm::devices::virtio::p9::P9Device;

fn bus() -> SystemBus<VirtioBlock> {
    SystemBus::new(DRAM_BASE, 0x1_0000)
}

#[test]
fn dram_reads_back_every_width() {
    let mut b = bus();
    assert_eq!(b.dram_base(), DRAM_BASE);
    assert_eq!(b.dram_size(), 0x1_0000);
    assert_eq!(b.write64(DRAM_BASE, 0x1122_3344_5566_7788), Ok(()));
    assert_eq!(b.read8(DRAM_BASE), Ok(0x88));
    assert_eq!(b.read16(DRAM_BASE + 2), Ok(0x5566));
    assert_eq!(b.read32(DRAM_BASE + 4), Ok(0x1122_3344));
    assert_eq!(b.read64(DRAM_BASE), Ok(0x1122_3344_5566_7788));
    assert_eq!(b.write8(DRAM_BASE + 1, 0xAB), Ok(()));
    assert_eq!(b.read64(DRAM_BASE), Ok(0x1122_3344_5566_AB88));
    assert_eq!(b.dram.load_8(1), Ok(0xAB));
}

#[test]
fn misaligned_and_out_of_range_accesses_trap() {
    let mut b = bus();
    assert_eq!(b.read16(DRAM_BASE + 1), Err(Trap::LoadAddressMisaligned(DRAM_BASE + 1)));
    assert_eq!(b.read32(DRAM_BASE + 2), Err(Trap::LoadAddressMisaligned(DRAM_BASE + 2)));
    assert_eq!(b.write64(DRAM_BASE + 4, 1), Err(Trap::StoreAddressMisaligned(DRAM_BASE + 4)));
    // Past the end of DRAM and outside every device window.
    let beyond = DRAM_BASE + 0x1_0000;
    assert_eq!(b.read32(beyond), Err(Trap::LoadAccessFault(beyond)));
    assert_eq!(b.write8(beyond, 1), Err(Trap::StoreAccessFault(beyond)));
    assert_eq!(b.read8(0x5000_0000), Err(Trap::LoadAccessFault(0x5000_0000)));
}

#[test]
fn test_finisher_reads_zero_and_turns_writes_into_traps() {
    let mut b = bus();
    assert_eq!(b.read32(TEST_FINISHER_BASE), Ok(0));
    assert_eq!(b.write32(TEST_FINISHER_BASE, 0x5555), Err(Trap::RequestedTrap(0x5555)));
    assert_eq!(b.write8(TEST_FINISHER_BASE + 3, 0x33), Err(Trap::RequestedTrap(0x33)));
}

#[test]
fn clint_plic_and_uart_are_routed() {
    let mut b = bus();
    // CLINT mtime through the bus, then after one poll of hart 0.
    assert_eq!(b.read64(CLINT_BASE + MTIME_OFFSET), Ok(0));
    b.check_interrupts();
    assert_eq!(b.read64(CLINT_BASE + MTIME_OFFSET), Ok(256));
    // PLIC priority register of source 10.
    assert_eq!(b.write32(PLIC_BASE + 40, 5), Ok(()));
    assert_eq!(b.read32(PLIC_BASE + 40), Ok(5));
    assert_eq!(b.read8(PLIC_BASE + 40), Ok(0));
    // UART transmit and receive.
    assert_eq!(b.write8(UART_BASE, b'A'), Ok(()));
    assert_eq!(b.uart.get_output(), vec![b'A']);
    b.uart.push_input(b'z');
    assert_eq!(b.read8(UART_BASE), Ok(b'z'));
}

#[test]
fn uart_interrupt_reaches_the_supervisor_context() {
    let mut b = bus();
    // Source 10 (UART) at priority 1, enabled for hart 0's S-mode context.
    assert_eq!(b.write32(PLIC_BASE + 40, 1), Ok(()));
    assert_eq!(b.write32(PLIC_BASE + 0x2000 + 0x80, 1 << 10), Ok(()));
    // Receive-data interrupt enabled in the UART.
    assert_eq!(b.write8(UART_BASE + 1, 1), Ok(()));
    assert_eq!(b.check_interrupts() & (1 << 9), 0);
    b.uart.push_input(b'x');
    let mip = b.check_interrupts();
    assert_eq!(mip & (1 << 9), 1 << 9);
    assert_eq!(mip & (1 << 11), 0);
    assert_eq!(b.poll_interrupts_for_hart(1) & (1 << 9), 0);
}

#[test]
fn virtio_windows() {
    let mut b = bus();
    b.virtio_devices.push(VirtioBlock::new(vec![0u8; 1024]));
    assert_eq!(b.read32(VIRTIO_BASE), Ok(0x7472_6976));
    assert_eq!(b.read8(VIRTIO_BASE + 1), Ok(0x69));
    assert_eq!(b.read16(VIRTIO_BASE + 2), Ok(0x7472));
    // Capacity in sectors, joined from two registers.
    assert_eq!(b.read64(VIRTIO_BASE + 0x100), Ok(2));
    // The second window is empty: it reads as zero and ignores 32-bit writes,
    // but narrow writes there fault.
    let empty = VIRTIO_BASE + VIRTIO_STRIDE;
    assert_eq!(b.read32(empty), Ok(0));
    assert_eq!(b.write32(empty + 0x70, 1), Ok(()));
    assert_eq!(b.write8(empty, 1), Err(Trap::StoreAccessFault(empty)));
    // A status write reaches the attached device.
    assert_eq!(b.write32(VIRTIO_BASE + 0x70, 3), Ok(()));
    assert_eq!(b.read32(VIRTIO_BASE + 0x70), Ok(3));
    b.poll_virtio();
    assert_eq!(b.read32(VIRTIO_BASE + 0x70), Ok(3));
}

#[test]
fn d1_windows_answer_word_accesses() {
    let mut b = bus();
    // No device attached: reads are zero and writes are ignored.
    assert_eq!(b.read32(D1_MMC0_BASE), Ok(0));
    assert_eq!(b.write32(D1_MMC0_BASE, 1), Ok(()));
    // Narrow accesses are not routed to the D1 windows.
    assert_eq!(b.read8(D1_EMAC_BASE), Err(Trap::LoadAccessFault(D1_EMAC_BASE)));
    b.d1_emac = Some(D1EmacEmulated::new());
    let direct = D1EmacEmulated::new().mmio_read32(D1_EMAC_BASE + 0x50);
    assert_eq!(b.read32(D1_EMAC_BASE + 0x50), Ok(direct));
}

#[test]
fn atomics_on_dram() {
    let mut b = bus();
    assert_eq!(b.write32(DRAM_BASE, 5), Ok(()));
    assert_eq!(b.atomic_add(DRAM_BASE, 3, true), Ok(5));
    assert_eq!(b.read32(DRAM_BASE), Ok(8));
    assert_eq!(b.atomic_min(DRAM_BASE, (-2i64) as u64, true), Ok(8));
    assert_eq!(b.read32(DRAM_BASE), Ok(0xFFFF_FFFE));
    assert_eq!(b.atomic_compare_exchange(DRAM_BASE, 0xFFFF_FFFE, 7, true), Ok((true, (-2i64) as u64)));
    assert_eq!(b.read32(DRAM_BASE), Ok(7));
    assert_eq!(b.atomic_swap(DRAM_BASE + 3, 1, true), Err(Trap::LoadAddressMisaligned(DRAM_BASE + 3)));
}

#[test]
fn hart_count_is_reported_by_the_clint() {
    let mut b = bus();
    b.set_num_harts(4);
    assert_eq!(b.clint.num_harts(), 4);
}

#[test]
fn timer_interrupt_follows_the_compare_register() {
    let mut b = bus();
    assert_eq!(b.write64(CLINT_BASE + MTIMECMP_OFFSET, 512), Ok(()));
    assert_eq!(b.check_interrupts() & (1 << 7), 0);
    // Polling another hart does not advance the timer.
    assert_eq!(b.poll_interrupts_for_hart(1) & (1 << 7), 0);
    assert_eq!(b.read64(CLINT_BASE + MTIME_OFFSET), Ok(256));
    assert_eq!(b.poll_interrupts() & (1 << 7), 1 << 7);
    assert_eq!(b.read64(CLINT_BASE + MTIME_OFFSET), Ok(512));
    // A software interrupt for hart 0.
    assert_eq!(b.write32(CLINT_BASE, 1), Ok(()));
    assert_eq!(b.check_interrupts() & (1 << 3), 1 << 3);
}

#[test]
fn one_bus_holds_virtio_devices_of_several_kinds() {
    let mut b: SystemBus<AnyVirtio> = SystemBus::new(DRAM_BASE, 0x1_0000);
    b.virtio_devices.push(AnyVirtio::Block(VirtioBlock::new(vec![0u8; 1024])));
    b.virtio_devices.push(AnyVirtio::Input(VirtioInput::new()));
    b.virtio_devices.push(AnyVirtio::P9(P9Device::new(b"host".to_vec())));
    assert_eq!(b.read32(VIRTIO_BASE + 8), Ok(2));
    assert_eq!(b.read32(VIRTIO_BASE + VIRTIO_STRIDE + 8), Ok(18));
    assert_eq!(b.read32(VIRTIO_BASE + 2 * VIRTIO_STRIDE + 8), Ok(9));
    assert_eq!(b.read32(VIRTIO_BASE + 2 * VIRTIO_STRIDE + 0x100), Ok(4));
    assert_eq!(b.write32(VIRTIO_BASE + 2 * VIRTIO_STRIDE + 0x50, 0), Ok(()));
    match &b.virtio_devices[2] {
        AnyVirtio::P9(d) => assert!(d.notify_pending),
        _ => panic!("slot 2 holds the 9P device"),
    }
    assert_eq!(b.read32(VIRTIO_BASE + 3 * VIRTIO_STRIDE), Ok(0));
}
