use riscv_vm::bus::{Bus, SystemBus, DRAM_BASE};
use riscv_vm::cpu::engine::{Block, BlockExecResult, MicroOp};
use riscv_vm::cpu::hart::Cpu;
use riscv_vm::cpu::types::Trap;
use riscv_vm::devices::virtio::block::VirtioBlock;

fn env() -> (Cpu, SystemBus<VirtioBlock>) {
    (Cpu::new(DRAM_BASE, 0), SystemBus::new(DRAM_BASE, 0x1_0000))
}

fn block(ops: Vec<MicroOp>) -> Block {
    let byte_len = 4 * ops.len() as u32;
    Block { start_pc: DRAM_BASE, ops, byte_len }
}

fn run_alu(ops: Vec<MicroOp>) -> Cpu {
    let (mut cpu, mut bus) = env();
    let b = block(ops);
    let r = cpu.execute_block(&b, &mut bus);
    assert_eq!(r, BlockExecResult::Continue(DRAM_BASE + b.byte_len as u64));
    cpu
}

#[test]
fn integer_operations() {
    let cpu = run_alu(vec![
        MicroOp::Addi { rd: 1, rs1: 0, imm: 5 },
        MicroOp::Add { rd: 2, rs1: 1, rs2: 1 },
        MicroOp::Sub { rd: 3, rs1: 0, rs2: 1 },
        MicroOp::Lui { rd: 4, imm: 0x12345000 },
        MicroOp::Auipc { rd: 5, imm: 0x1000, pc_offset: 16 },
        MicroOp::Srai { rd: 6, rs1: 3, shamt: 1 },
        MicroOp::Srli { rd: 7, rs1: 3, shamt: 60 },
        MicroOp::Slt { rd: 8, rs1: 3, rs2: 1 },
        MicroOp::Sltu { rd: 9, rs1: 3, rs2: 1 },
        MicroOp::Addiw { rd: 10, rs1: 4, imm: 0x7FFF_FFFF },
    ]);
    assert_eq!(cpu.read_reg(1), 5);
    assert_eq!(cpu.read_reg(2), 10);
    assert_eq!(cpu.read_reg(3), (-5i64) as u64);
    assert_eq!(cpu.read_reg(4), 0x12345000);
    assert_eq!(cpu.read_reg(5), DRAM_BASE + 16 + 0x1000);
    assert_eq!(cpu.read_reg(6), (-3i64) as u64);
    assert_eq!(cpu.read_reg(7), 0xF);
    assert_eq!(cpu.read_reg(8), 1);
    assert_eq!(cpu.read_reg(9), 0);
    // 0x12345000 + 0x7fffffff wraps in 32 bits and is sign-extended.
    assert_eq!(cpu.read_reg(10), (0x12345000u32.wrapping_add(0x7FFF_FFFF) as i32) as i64 as u64);
}

#[test]
fn x0_stays_zero() {
    let cpu = run_alu(vec![MicroOp::Addi { rd: 0, rs1: 0, imm: 42 }, MicroOp::Lui { rd: 0, imm: 0x1000 }]);
    assert_eq!(cpu.read_reg(0), 0);
    assert_eq!(cpu.regs[0], 0);
}

#[test]
fn multiply_and_divide() {
    let cpu = run_alu(vec![
        MicroOp::Addi { rd: 1, rs1: 0, imm: -7 },
        MicroOp::Addi { rd: 2, rs1: 0, imm: 2 },
        MicroOp::Div { rd: 3, rs1: 1, rs2: 2 },
        MicroOp::Rem { rd: 4, rs1: 1, rs2: 2 },
        MicroOp::Div { rd: 5, rs1: 1, rs2: 0 },
        MicroOp::Divu { rd: 6, rs1: 1, rs2: 0 },
        MicroOp::Rem { rd: 7, rs1: 1, rs2: 0 },
        MicroOp::Remu { rd: 8, rs1: 2, rs2: 0 },
        MicroOp::Mul { rd: 9, rs1: 1, rs2: 2 },
        MicroOp::Mulh { rd: 10, rs1: 1, rs2: 2 },
        MicroOp::Mulhu { rd: 11, rs1: 1, rs2: 2 },
        MicroOp::Mulhsu { rd: 12, rs1: 1, rs2: 2 },
        MicroOp::Divw { rd: 13, rs1: 1, rs2: 2 },
        MicroOp::Remuw { rd: 14, rs1: 1, rs2: 2 },
        MicroOp::Mulw { rd: 15, rs1: 1, rs2: 1 },
    ]);
    assert_eq!(cpu.read_reg(3), (-3i64) as u64);
    assert_eq!(cpu.read_reg(4), (-1i64) as u64);
    assert_eq!(cpu.read_reg(5), u64::MAX);
    assert_eq!(cpu.read_reg(6), u64::MAX);
    assert_eq!(cpu.read_reg(7), (-7i64) as u64);
    assert_eq!(cpu.read_reg(8), 2);
    assert_eq!(cpu.read_reg(9), (-14i64) as u64);
    assert_eq!(cpu.read_reg(10), u64::MAX);
    assert_eq!(cpu.read_reg(11), 1);
    assert_eq!(cpu.read_reg(12), u64::MAX);
    assert_eq!(cpu.read_reg(13), (-3i64) as u64);
    assert_eq!(cpu.read_reg(14), ((0xFFFF_FFF9u32 % 2) as i32) as i64 as u64);
    assert_eq!(cpu.read_reg(15), 49);
}

#[test]
fn signed_overflow_division() {
    let cpu = run_alu(vec![
        MicroOp::Addi { rd: 1, rs1: 0, imm: 1 },
        MicroOp::Slli { rd: 1, rs1: 1, shamt: 63 },
        MicroOp::Addi { rd: 2, rs1: 0, imm: -1 },
        MicroOp::Div { rd: 3, rs1: 1, rs2: 2 },
        MicroOp::Rem { rd: 4, rs1: 1, rs2: 2 },
    ]);
    assert_eq!(cpu.read_reg(3), i64::MIN as u64);
    assert_eq!(cpu.read_reg(4), 0);
}

#[test]
fn loads_and_stores_go_through_the_bus() {
    let (mut cpu, mut bus) = env();
    cpu.write_reg(1, DRAM_BASE + 0x100);
    cpu.write_reg(2, 0xFFFF_FFFF_FFFF_FF80);
    let b = block(vec![
        MicroOp::Sd { rs1: 1, rs2: 2, imm: 0, pc_offset: 0 },
        MicroOp::Ld { rd: 3, rs1: 1, imm: 0, pc_offset: 4 },
        MicroOp::Lb { rd: 4, rs1: 1, imm: 0, pc_offset: 8 },
        MicroOp::Lbu { rd: 5, rs1: 1, imm: 0, pc_offset: 12 },
        MicroOp::Sw { rs1: 1, rs2: 0, imm: 8, pc_offset: 16 },
        MicroOp::Lw { rd: 6, rs1: 1, imm: 4, pc_offset: 20 },
        MicroOp::Lhu { rd: 7, rs1: 1, imm: 6, pc_offset: 24 },
    ]);
    assert_eq!(cpu.execute_block(&b, &mut bus), BlockExecResult::Continue(DRAM_BASE + 28));
    assert_eq!(cpu.read_reg(3), 0xFFFF_FFFF_FFFF_FF80);
    assert_eq!(cpu.read_reg(4), 0xFFFF_FFFF_FFFF_FF80);
    assert_eq!(cpu.read_reg(5), 0x80);
    assert_eq!(cpu.read_reg(6), u64::MAX);
    assert_eq!(cpu.read_reg(7), 0xFFFF);
    assert_eq!(bus.read64(DRAM_BASE + 0x100), Ok(0xFFFF_FFFF_FFFF_FF80));
}

#[test]
fn faulting_access_ends_the_block_at_its_pc() {
    let (mut cpu, mut bus) = env();
    let b = block(vec![
        MicroOp::Addi { rd: 1, rs1: 0, imm: 1 },
        MicroOp::Lw { rd: 2, rs1: 0, imm: 0x40, pc_offset: 4 },
        MicroOp::Addi { rd: 3, rs1: 0, imm: 1 },
    ]);
    assert_eq!(
        cpu.execute_block(&b, &mut bus),
        BlockExecResult::Trap { trap: Trap::LoadAccessFault(0x40), fault_pc: DRAM_BASE + 4 }
    );
    assert_eq!(cpu.read_reg(1), 1);
    assert_eq!(cpu.read_reg(3), 0);
    cpu.write_reg(1, DRAM_BASE + 2);
    let b = block(vec![MicroOp::Sw { rs1: 1, rs2: 0, imm: 0, pc_offset: 0 }]);
    assert_eq!(
        cpu.execute_block(&b, &mut bus),
        BlockExecResult::Trap { trap: Trap::StoreAddressMisaligned(DRAM_BASE + 2), fault_pc: DRAM_BASE }
    );
}

#[test]
fn jumps_branches_and_system_instructions_end_blocks() {
    let (mut cpu, mut bus) = env();
    let b = block(vec![
        MicroOp::Addi { rd: 1, rs1: 0, imm: 3 },
        MicroOp::Beq { rs1: 1, rs2: 0, imm: 0x40, pc_offset: 4, insn_len: 4 },
    ]);
    assert_eq!(cpu.execute_block(&b, &mut bus), BlockExecResult::Continue(DRAM_BASE + 8));
    let b = block(vec![MicroOp::Bne { rs1: 1, rs2: 0, imm: -4, pc_offset: 0, insn_len: 4 }]);
    assert_eq!(cpu.execute_block(&b, &mut bus), BlockExecResult::Continue(DRAM_BASE - 4));
    let b = block(vec![MicroOp::Jal { rd: 1, imm: 0x20, pc_offset: 8, insn_len: 2 }]);
    assert_eq!(cpu.execute_block(&b, &mut bus), BlockExecResult::Continue(DRAM_BASE + 0x28));
    assert_eq!(cpu.read_reg(1), DRAM_BASE + 10);
    let b = block(vec![MicroOp::Jalr { rd: 2, rs1: 1, imm: 1, pc_offset: 0, insn_len: 4 }]);
    assert_eq!(cpu.execute_block(&b, &mut bus), BlockExecResult::Continue(DRAM_BASE + 10));
    assert_eq!(cpu.read_reg(2), DRAM_BASE + 4);
    let b = block(vec![
        MicroOp::Fence,
        MicroOp::Ecall { pc_offset: 4 },
        MicroOp::Addi { rd: 5, rs1: 0, imm: 1 },
    ]);
    assert_eq!(cpu.execute_block(&b, &mut bus), BlockExecResult::Exit { next_pc: DRAM_BASE + 4 });
    assert_eq!(cpu.read_reg(5), 0);
}

#[test]
fn register_block_leaves_memory_and_pc() {
    let (mut cpu, mut bus) = env();
    assert_eq!(bus.write64(DRAM_BASE + 0x100, 0xDEAD_BEEF), Ok(()));
    let b = block(vec![
        MicroOp::Addi { rd: 1, rs1: 0, imm: 0x100 },
        MicroOp::Add { rd: 2, rs1: 1, rs2: 1 },
    ]);
    let r = cpu.execute_block(&b, &mut bus);
    assert_eq!(r, BlockExecResult::Continue(DRAM_BASE + 8));
    assert_eq!(cpu.pc, DRAM_BASE);
    assert_eq!(cpu.read_reg(2), 0x200);
    assert_eq!(bus.read64(DRAM_BASE + 0x100), Ok(0xDEAD_BEEF));
}
