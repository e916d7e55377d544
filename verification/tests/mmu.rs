use riscv_vm::bus::{Bus, SystemBus, DRAM_BASE};
use riscv_vm::cpu::csr::{CSR_MCAUSE, CSR_MEPC, CSR_MSTATUS, CSR_MTVAL, CSR_SATP};
use riscv_vm::cpu::engine::{Block, BlockExecResult, MicroOp};
use riscv_vm::cpu::hart::Cpu;
use riscv_vm::cpu::types::{Mode, Trap};
use riscv_vm::devices::virtio::block::VirtioBlock;
use riscv_vm::mmu::{translate, AccessType};

const VA: u64 = 0x4000_1238;
const PTE_V: u64 = 1;
const PTE_R: u64 = 2;
const PTE_W: u64 = 4;
const PTE_X: u64 = 8;
const PTE_U: u64 = 16;
const PTE_A: u64 = 0x40;
const PTE_D: u64 = 0x80;

fn ppn(pa: u64) -> u64 {
    pa >> 12
}

/// A bus with an Sv39 table mapping the page of `VA` to DRAM_BASE + 0x5000
/// with `leaf_flags`; returns the bus and the satp value.
fn mapped(leaf_flags: u64) -> (SystemBus<VirtioBlock>, u64) {
    let mut bus: SystemBus<VirtioBlock> = SystemBus::new(DRAM_BASE, 0x1_0000);
    let root = DRAM_BASE + 0x1000;
    let l1 = DRAM_BASE + 0x2000;
    let l0 = DRAM_BASE + 0x3000;
    assert_eq!(bus.write64(root + 8, (ppn(l1) << 10) | PTE_V), Ok(()));
    assert_eq!(bus.write64(l1, (ppn(l0) << 10) | PTE_V), Ok(()));
    assert_eq!(bus.write64(l0 + 8, (ppn(DRAM_BASE + 0x5000) << 10) | leaf_flags), Ok(()));
    (bus, (8u64 << 60) | ppn(root))
}

const RW: u64 = PTE_V | PTE_R | PTE_W | PTE_A | PTE_D;

#[test]
fn sv39_walk_maps_page_and_offset() {
    let (mut bus, satp) = mapped(RW);
    assert_eq!(translate(&mut bus, Mode::Supervisor, satp, 0, VA, AccessType::Load), Ok(DRAM_BASE + 0x5238));
    assert_eq!(translate(&mut bus, Mode::Supervisor, satp, 0, VA, AccessType::Store), Ok(DRAM_BASE + 0x5238));
    // M-mode and Bare satp use the address as it is.
    assert_eq!(translate(&mut bus, Mode::Machine, satp, 0, VA, AccessType::Load), Ok(VA));
    assert_eq!(translate(&mut bus, Mode::Supervisor, 0, 0, VA, AccessType::Load), Ok(VA));
}

#[test]
fn sv39_faults() {
    let (mut bus, satp) = mapped(RW);
    // Unmapped page.
    assert_eq!(
        translate(&mut bus, Mode::Supervisor, satp, 0, VA + 0x1000, AccessType::Load),
        Err(Trap::LoadPageFault(VA + 0x1000))
    );
    // Not canonical.
    assert_eq!(
        translate(&mut bus, Mode::Supervisor, satp, 0, 0x0000_0080_0000_0000, AccessType::Store),
        Err(Trap::StorePageFault(0x0000_0080_0000_0000))
    );
    // Not executable.
    assert_eq!(translate(&mut bus, Mode::Supervisor, satp, 0, VA, AccessType::Instruction), Err(Trap::InstructionPageFault(VA)));
    // A supervisor page is closed to U-mode.
    assert_eq!(translate(&mut bus, Mode::User, satp, 0, VA, AccessType::Load), Err(Trap::LoadPageFault(VA)));
    // D clear faults on a store only.
    let (mut bus, satp) = mapped(PTE_V | PTE_R | PTE_W | PTE_A);
    assert_eq!(translate(&mut bus, Mode::Supervisor, satp, 0, VA, AccessType::Load), Ok(DRAM_BASE + 0x5238));
    assert_eq!(translate(&mut bus, Mode::Supervisor, satp, 0, VA, AccessType::Store), Err(Trap::StorePageFault(VA)));
}

#[test]
fn user_pages_need_sum_from_supervisor_and_mprv_uses_mpp() {
    let (mut bus, satp) = mapped(RW | PTE_U | PTE_X);
    assert_eq!(translate(&mut bus, Mode::User, satp, 0, VA, AccessType::Instruction), Ok(DRAM_BASE + 0x5238));
    assert_eq!(translate(&mut bus, Mode::Supervisor, satp, 0, VA, AccessType::Load), Err(Trap::LoadPageFault(VA)));
    let sum = 1u64 << 18;
    assert_eq!(translate(&mut bus, Mode::Supervisor, satp, sum, VA, AccessType::Load), Ok(DRAM_BASE + 0x5238));
    // M-mode with MPRV and MPP = U translates loads.
    let mprv_u = 1u64 << 17;
    assert_eq!(translate(&mut bus, Mode::Machine, satp, mprv_u, VA, AccessType::Load), Ok(DRAM_BASE + 0x5238));
    assert_eq!(translate(&mut bus, Mode::Machine, satp, mprv_u, VA + 0x1000, AccessType::Load), Err(Trap::LoadPageFault(VA + 0x1000)));
}

fn supervisor(satp: u64) -> Cpu {
    let mut cpu = Cpu::new(DRAM_BASE, 0);
    cpu.csrs.set(CSR_SATP as usize, satp);
    cpu.mode = Mode::Supervisor;
    cpu
}

#[test]
fn block_loads_and_stores_through_page_tables() {
    let (mut bus, satp) = mapped(RW);
    assert_eq!(bus.write64(DRAM_BASE + 0x5238, 0x1122_3344_5566_7788), Ok(()));
    let mut cpu = supervisor(satp);
    cpu.write_reg(2, VA);
    let ops = vec![
        MicroOp::Ld { rd: 1, rs1: 2, imm: 0, pc_offset: 0 },
        MicroOp::Sd { rs1: 2, rs2: 1, imm: 8, pc_offset: 4 },
    ];
    let b = Block { start_pc: 0x1000, ops, byte_len: 8 };
    assert_eq!(cpu.execute_block(&b, &mut bus), BlockExecResult::Continue(0x1008));
    assert_eq!(cpu.read_reg(1), 0x1122_3344_5566_7788);
    assert_eq!(bus.read64(DRAM_BASE + 0x5240), Ok(0x1122_3344_5566_7788));
}

#[test]
fn block_page_fault_traps_at_the_instruction() {
    let (mut bus, satp) = mapped(RW);
    let mut cpu = supervisor(satp);
    cpu.write_reg(2, VA + 0x1000);
    let ops = vec![
        MicroOp::Addi { rd: 0, rs1: 0, imm: 5 },
        MicroOp::Lw { rd: 1, rs1: 2, imm: 0, pc_offset: 4 },
    ];
    let b = Block { start_pc: 0x1000, ops, byte_len: 8 };
    assert_eq!(
        cpu.execute_block(&b, &mut bus),
        BlockExecResult::Trap { trap: Trap::LoadPageFault(VA + 0x1000), fault_pc: 0x1004 }
    );
    assert_eq!(cpu.read_reg(0), 0);
    assert_eq!(cpu.read_reg(1), 0);
}

#[test]
fn fp_load_page_fault_enters_the_trap() {
    let (mut bus, satp) = mapped(RW);
    let mut cpu = supervisor(satp);
    cpu.write_reg(5, VA + 0x1000);
    assert_eq!(cpu.exec_load_fp(&mut bus, 1, 5, 0, 3, 0x2000), Err(Trap::LoadPageFault(VA + 0x1000)));
    assert_eq!(cpu.mode, Mode::Machine);
    assert_eq!(cpu.csrs.get(CSR_MCAUSE as usize), 13);
    assert_eq!(cpu.csrs.get(CSR_MEPC as usize), 0x2000);
    assert_eq!(cpu.csrs.get(CSR_MTVAL as usize), VA + 0x1000);
    assert_eq!(cpu.fregs[1], 0);
    // Through the mapping the load succeeds.
    let (mut bus, satp) = mapped(RW);
    let mut cpu = supervisor(satp);
    assert_eq!((cpu.csrs.get(CSR_MSTATUS as usize) >> 13) & 3, 1);
    assert_eq!(bus.write64(DRAM_BASE + 0x5238, 2.5f64.to_bits()), Ok(()));
    cpu.write_reg(5, VA);
    assert_eq!(cpu.exec_load_fp(&mut bus, 1, 5, 0, 3, 0x2000), Ok(()));
    assert_eq!(cpu.fregs[1], 2.5f64.to_bits());
    assert_eq!(cpu.exec_store_fp(&mut bus, 5, 1, 16, 3, 0x2004), Ok(()));
    assert_eq!(bus.read64(DRAM_BASE + 0x5248), Ok(2.5f64.to_bits()));
}
