use riscv_vm::bus::{Bus, SystemBus, DRAM_BASE};
use riscv_vm::cpu::csr::{CSR_MSTATUS, CSR_SATP};
use riscv_vm::cpu::hart::Cpu;
use riscv_vm::cpu::types::{Mode, Trap};
use riscv_vm::devices::virtio::block::VirtioBlock;

fn env() -> (Cpu, SystemBus<VirtioBlock>) {
    (Cpu::new(DRAM_BASE, 0), SystemBus::new(DRAM_BASE, 0x1_0000))
}

#[test]
fn flw_nan_boxes_the_loaded_word() {
    let (mut cpu, mut bus) = env();
    let data = DRAM_BASE + 0x1000;
    assert_eq!(bus.write32(data, (-2.5f32).to_bits()), Ok(()));
    cpu.write_reg(5, data - 8);
    assert_eq!(cpu.exec_load_fp(&mut bus, 1, 5, 8, 2, DRAM_BASE), Ok(()));
    assert_eq!(cpu.fregs[1], 0xFFFF_FFFF_0000_0000 | (-2.5f32).to_bits() as u64);
    assert_eq!((cpu.csrs.get(CSR_MSTATUS as usize) >> 13) & 3, 3);
}

#[test]
fn fld_then_fsd_moves_the_double_unchanged() {
    let (mut cpu, mut bus) = env();
    let data = DRAM_BASE + 0x2000;
    assert_eq!(bus.write64(data, 1.5f64.to_bits()), Ok(()));
    cpu.write_reg(6, data);
    assert_eq!(cpu.exec_load_fp(&mut bus, 2, 6, 0, 3, DRAM_BASE), Ok(()));
    assert_eq!(cpu.fregs[2], 1.5f64.to_bits());
    assert_eq!(cpu.exec_store_fp(&mut bus, 6, 2, 16, 3, DRAM_BASE), Ok(()));
    assert_eq!(bus.read64(data + 16), Ok(1.5f64.to_bits()));
    // FSW stores the low word only.
    cpu.write_freg(3, 0xFFFF_FFFF_4020_0000);
    assert_eq!(bus.write64(data + 32, u64::MAX), Ok(()));
    assert_eq!(cpu.exec_store_fp(&mut bus, 6, 3, 32, 2, DRAM_BASE), Ok(()));
    assert_eq!(bus.read64(data + 32), Ok(0xFFFF_FFFF_4020_0000));
}

#[test]
fn fp_moves_refuse_bad_widths_and_a_disabled_unit() {
    let (mut cpu, mut bus) = env();
    cpu.write_reg(5, DRAM_BASE);
    assert_eq!(cpu.exec_load_fp(&mut bus, 1, 5, 0, 1, DRAM_BASE), Err(Trap::IllegalInstruction(0)));
    assert_eq!(cpu.exec_store_fp(&mut bus, 5, 1, 0, 4, DRAM_BASE), Err(Trap::IllegalInstruction(0)));
    assert_eq!(cpu.write_csr(CSR_MSTATUS, 0), Ok(()));
    assert_eq!(cpu.exec_load_fp(&mut bus, 1, 5, 0, 3, DRAM_BASE), Err(Trap::IllegalInstruction(0)));
    assert_eq!(cpu.fregs[1], 0);
}

#[test]
fn fp_load_fault_leaves_the_register() {
    let (mut cpu, mut bus) = env();
    assert_eq!(cpu.mode, Mode::Machine);
    assert_eq!(cpu.csrs.get(CSR_SATP as usize), 0);
    cpu.write_reg(5, 0x10);
    assert!(cpu.exec_load_fp(&mut bus, 1, 5, 0, 3, DRAM_BASE).is_err());
    assert_eq!(cpu.fregs[1], 0);
}
