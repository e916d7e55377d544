//! The block execution engine: runs a decoded block of micro-operations
//! (integer, multiply/divide, loads and stores, jumps and branches) against
//! the hart's registers and the bus, and hands system instructions back to
//! the interpreter.

use vstd::prelude::*;
use crate::bus::Bus;
use crate::cpu::csr::{lemma_csr_file_len, CSR_MSTATUS, CSR_SATP};
use crate::cpu::hart::{Cpu, CpuView, granule};
use crate::cpu::types::Trap;
use crate::mmu::{AccessType, translate, translate_spec};

verus! {

/// A decoded instruction of a block. Register fields name x0..x31; `pc_offset`
/// is the instruction's offset from the block's start; `insn_len` its length
/// in bytes. The system instructions (ECALL, EBREAK, xRET, SFENCE.VMA, Zicsr,
/// LR/SC and AMOs) are not run here: the block ends and the interpreter runs
/// them.
#[derive(Clone, Copy, Debug)]
pub enum MicroOp {
    Addi { rd: u8, rs1: u8, imm: i64 },
    Add { rd: u8, rs1: u8, rs2: u8 },
    Sub { rd: u8, rs1: u8, rs2: u8 },
    Xori { rd: u8, rs1: u8, imm: i64 },
    Ori { rd: u8, rs1: u8, imm: i64 },
    Andi { rd: u8, rs1: u8, imm: i64 },
    Xor { rd: u8, rs1: u8, rs2: u8 },
    Or { rd: u8, rs1: u8, rs2: u8 },
    And { rd: u8, rs1: u8, rs2: u8 },
    Slli { rd: u8, rs1: u8, shamt: u32 },
    Srli { rd: u8, rs1: u8, shamt: u32 },
    Srai { rd: u8, rs1: u8, shamt: u32 },
    Sll { rd: u8, rs1: u8, rs2: u8 },
    Srl { rd: u8, rs1: u8, rs2: u8 },
    Sra { rd: u8, rs1: u8, rs2: u8 },
    Slti { rd: u8, rs1: u8, imm: i64 },
    Sltiu { rd: u8, rs1: u8, imm: i64 },
    Slt { rd: u8, rs1: u8, rs2: u8 },
    Sltu { rd: u8, rs1: u8, rs2: u8 },
    Addiw { rd: u8, rs1: u8, imm: i64 },
    Addw { rd: u8, rs1: u8, rs2: u8 },
    Subw { rd: u8, rs1: u8, rs2: u8 },
    Slliw { rd: u8, rs1: u8, shamt: u32 },
    Srliw { rd: u8, rs1: u8, shamt: u32 },
    Sraiw { rd: u8, rs1: u8, shamt: u32 },
    Sllw { rd: u8, rs1: u8, rs2: u8 },
    Srlw { rd: u8, rs1: u8, rs2: u8 },
    Sraw { rd: u8, rs1: u8, rs2: u8 },
    Mul { rd: u8, rs1: u8, rs2: u8 },
    Mulh { rd: u8, rs1: u8, rs2: u8 },
    Mulhsu { rd: u8, rs1: u8, rs2: u8 },
    Mulhu { rd: u8, rs1: u8, rs2: u8 },
    Div { rd: u8, rs1: u8, rs2: u8 },
    Divu { rd: u8, rs1: u8, rs2: u8 },
    Rem { rd: u8, rs1: u8, rs2: u8 },
    Remu { rd: u8, rs1: u8, rs2: u8 },
    Mulw { rd: u8, rs1: u8, rs2: u8 },
    Divw { rd: u8, rs1: u8, rs2: u8 },
    Divuw { rd: u8, rs1: u8, rs2: u8 },
    Remw { rd: u8, rs1: u8, rs2: u8 },
    Remuw { rd: u8, rs1: u8, rs2: u8 },
    Lui { rd: u8, imm: i64 },
    Auipc { rd: u8, imm: i64, pc_offset: u32 },
    Ld { rd: u8, rs1: u8, imm: i64, pc_offset: u32 },
    Lw { rd: u8, rs1: u8, imm: i64, pc_offset: u32 },
    Lwu { rd: u8, rs1: u8, imm: i64, pc_offset: u32 },
    Lh { rd: u8, rs1: u8, imm: i64, pc_offset: u32 },
    Lhu { rd: u8, rs1: u8, imm: i64, pc_offset: u32 },
    Lb { rd: u8, rs1: u8, imm: i64, pc_offset: u32 },
    Lbu { rd: u8, rs1: u8, imm: i64, pc_offset: u32 },
    Sd { rs1: u8, rs2: u8, imm: i64, pc_offset: u32 },
    Sw { rs1: u8, rs2: u8, imm: i64, pc_offset: u32 },
    Sh { rs1: u8, rs2: u8, imm: i64, pc_offset: u32 },
    Sb { rs1: u8, rs2: u8, imm: i64, pc_offset: u32 },
    Jal { rd: u8, imm: i64, pc_offset: u32, insn_len: u8 },
    Jalr { rd: u8, rs1: u8, imm: i64, pc_offset: u32, insn_len: u8 },
    Beq { rs1: u8, rs2: u8, imm: i64, pc_offset: u32, insn_len: u8 },
    Bne { rs1: u8, rs2: u8, imm: i64, pc_offset: u32, insn_len: u8 },
    Blt { rs1: u8, rs2: u8, imm: i64, pc_offset: u32, insn_len: u8 },
    Bge { rs1: u8, rs2: u8, imm: i64, pc_offset: u32, insn_len: u8 },
    Bltu { rs1: u8, rs2: u8, imm: i64, pc_offset: u32, insn_len: u8 },
    Bgeu { rs1: u8, rs2: u8, imm: i64, pc_offset: u32, insn_len: u8 },
    Ecall { pc_offset: u32 },
    Ebreak { pc_offset: u32 },
    Mret { pc_offset: u32 },
    Sret { pc_offset: u32 },
    SfenceVma { pc_offset: u32 },
    Csr { pc_offset: u32 },
    LoadReserved { pc_offset: u32 },
    StoreConditional { pc_offset: u32 },
    Amo { pc_offset: u32 },
    Wfi { pc_offset: u32 },
    Fence,
}

/// A decoded block: its first instruction's address, its operations in
/// order, and its length in bytes.
pub struct Block {
    pub start_pc: u64,
    pub ops: Vec<MicroOp>,
    pub byte_len: u32,
}

/// How a block ended.
#[derive(Debug, Clone, PartialEq)]
pub enum BlockExecResult {
    /// Completed; execution goes on at the PC given.
    Continue(u64),
    /// Stopped by a trap at `fault_pc`.
    Trap { trap: Trap, fault_pc: u64 },
    /// Stopped at an instruction that the interpreter must run.
    Exit { next_pc: u64 },
}

/// The register fields of `op` name registers, and its shift amounts are
/// within the operand width.
pub open spec fn op_wf(op: MicroOp) -> bool {
    match op {
        MicroOp::Addi { rd, rs1, imm } => rd < 32 && rs1 < 32,
        MicroOp::Add { rd, rs1, rs2 } => rd < 32 && rs1 < 32 && rs2 < 32,
        MicroOp::Sub { rd, rs1, rs2 } => rd < 32 && rs1 < 32 && rs2 < 32,
        MicroOp::Xori { rd, rs1, imm } => rd < 32 && rs1 < 32,
        MicroOp::Ori { rd, rs1, imm } => rd < 32 && rs1 < 32,
        MicroOp::Andi { rd, rs1, imm } => rd < 32 && rs1 < 32,
        MicroOp::Xor { rd, rs1, rs2 } => rd < 32 && rs1 < 32 && rs2 < 32,
        MicroOp::Or { rd, rs1, rs2 } => rd < 32 && rs1 < 32 && rs2 < 32,
        MicroOp::And { rd, rs1, rs2 } => rd < 32 && rs1 < 32 && rs2 < 32,
        MicroOp::Slli { rd, rs1, shamt } => rd < 32 && rs1 < 32 && shamt < 64,
        MicroOp::Srli { rd, rs1, shamt } => rd < 32 && rs1 < 32 && shamt < 64,
        MicroOp::Srai { rd, rs1, shamt } => rd < 32 && rs1 < 32 && shamt < 64,
        MicroOp::Sll { rd, rs1, rs2 } => rd < 32 && rs1 < 32 && rs2 < 32,
        MicroOp::Srl { rd, rs1, rs2 } => rd < 32 && rs1 < 32 && rs2 < 32,
        MicroOp::Sra { rd, rs1, rs2 } => rd < 32 && rs1 < 32 && rs2 < 32,
        MicroOp::Slti { rd, rs1, imm } => rd < 32 && rs1 < 32,
        MicroOp::Sltiu { rd, rs1, imm } => rd < 32 && rs1 < 32,
        MicroOp::Slt { rd, rs1, rs2 } => rd < 32 && rs1 < 32 && rs2 < 32,
        MicroOp::Sltu { rd, rs1, rs2 } => rd < 32 && rs1 < 32 && rs2 < 32,
        MicroOp::Addiw { rd, rs1, imm } => rd < 32 && rs1 < 32,
        MicroOp::Addw { rd, rs1, rs2 } => rd < 32 && rs1 < 32 && rs2 < 32,
        MicroOp::Subw { rd, rs1, rs2 } => rd < 32 && rs1 < 32 && rs2 < 32,
        MicroOp::Slliw { rd, rs1, shamt } => rd < 32 && rs1 < 32 && shamt < 32,
        MicroOp::Srliw { rd, rs1, shamt } => rd < 32 && rs1 < 32 && shamt < 32,
        MicroOp::Sraiw { rd, rs1, shamt } => rd < 32 && rs1 < 32 && shamt < 32,
        MicroOp::Sllw { rd, rs1, rs2 } => rd < 32 && rs1 < 32 && rs2 < 32,
        MicroOp::Srlw { rd, rs1, rs2 } => rd < 32 && rs1 < 32 && rs2 < 32,
        MicroOp::Sraw { rd, rs1, rs2 } => rd < 32 && rs1 < 32 && rs2 < 32,
        MicroOp::Mul { rd, rs1, rs2 } => rd < 32 && rs1 < 32 && rs2 < 32,
        MicroOp::Mulh { rd, rs1, rs2 } => rd < 32 && rs1 < 32 && rs2 < 32,
        MicroOp::Mulhsu { rd, rs1, rs2 } => rd < 32 && rs1 < 32 && rs2 < 32,
        MicroOp::Mulhu { rd, rs1, rs2 } => rd < 32 && rs1 < 32 && rs2 < 32,
        MicroOp::Div { rd, rs1, rs2 } => rd < 32 && rs1 < 32 && rs2 < 32,
        MicroOp::Divu { rd, rs1, rs2 } => rd < 32 && rs1 < 32 && rs2 < 32,
        MicroOp::Rem { rd, rs1, rs2 } => rd < 32 && rs1 < 32 && rs2 < 32,
        MicroOp::Remu { rd, rs1, rs2 } => rd < 32 && rs1 < 32 && rs2 < 32,
        MicroOp::Mulw { rd, rs1, rs2 } => rd < 32 && rs1 < 32 && rs2 < 32,
        MicroOp::Divw { rd, rs1, rs2 } => rd < 32 && rs1 < 32 && rs2 < 32,
        MicroOp::Divuw { rd, rs1, rs2 } => rd < 32 && rs1 < 32 && rs2 < 32,
        MicroOp::Remw { rd, rs1, rs2 } => rd < 32 && rs1 < 32 && rs2 < 32,
        MicroOp::Remuw { rd, rs1, rs2 } => rd < 32 && rs1 < 32 && rs2 < 32,
        MicroOp::Lui { rd, .. } => rd < 32,
        MicroOp::Auipc { rd, .. } => rd < 32,
        MicroOp::Ld { rd, rs1, .. } => rd < 32 && rs1 < 32,
        MicroOp::Lw { rd, rs1, .. } => rd < 32 && rs1 < 32,
        MicroOp::Lwu { rd, rs1, .. } => rd < 32 && rs1 < 32,
        MicroOp::Lh { rd, rs1, .. } => rd < 32 && rs1 < 32,
        MicroOp::Lhu { rd, rs1, .. } => rd < 32 && rs1 < 32,
        MicroOp::Lb { rd, rs1, .. } => rd < 32 && rs1 < 32,
        MicroOp::Lbu { rd, rs1, .. } => rd < 32 && rs1 < 32,
        MicroOp::Sd { rs1, rs2, .. } => rs1 < 32 && rs2 < 32,
        MicroOp::Sw { rs1, rs2, .. } => rs1 < 32 && rs2 < 32,
        MicroOp::Sh { rs1, rs2, .. } => rs1 < 32 && rs2 < 32,
        MicroOp::Sb { rs1, rs2, .. } => rs1 < 32 && rs2 < 32,
        MicroOp::Jal { rd, .. } => rd < 32,
        MicroOp::Jalr { rd, rs1, .. } => rd < 32 && rs1 < 32,
        MicroOp::Beq { rs1, rs2, .. } => rs1 < 32 && rs2 < 32,
        MicroOp::Bne { rs1, rs2, .. } => rs1 < 32 && rs2 < 32,
        MicroOp::Blt { rs1, rs2, .. } => rs1 < 32 && rs2 < 32,
        MicroOp::Bge { rs1, rs2, .. } => rs1 < 32 && rs2 < 32,
        MicroOp::Bltu { rs1, rs2, .. } => rs1 < 32 && rs2 < 32,
        MicroOp::Bgeu { rs1, rs2, .. } => rs1 < 32 && rs2 < 32,
        _ => true,
    }
}

/// Every operation of the block is well formed.
pub open spec fn block_wf(b: Block) -> bool {
    forall|i: int| 0 <= i < b.ops@.len() ==> op_wf(#[trigger] b.ops@[i])
}

/// Translation of `vaddr` for an access of kind `access` by hart `c`.
pub open spec fn xlate<B: Bus>(c: CpuView, s: B::State, vaddr: u64, access: AccessType) -> (Result<u64, Trap>, B::State) {
    translate_spec::<B>(s, c.mode, c.csrs[CSR_SATP as int], c.csrs[CSR_MSTATUS as int], vaddr, access)
}

/// A load of `n` bytes at virtual address `vaddr` by hart `c`: translation,
/// then the bus read at the physical address.
pub open spec fn load_via<B: Bus>(c: CpuView, s: B::State, vaddr: u64, n: nat) -> (Result<u64, Trap>, B::State) {
    match xlate::<B>(c, s, vaddr, AccessType::Load) {
        (Ok(pa), s1) => B::read_outcome(s1, pa, n),
        (Err(t), s1) => (Err(t), s1),
    }
}

/// A store of the low `n` bytes of `val` at virtual address `vaddr` by hart
/// `c`: translation, then the bus write at the physical address.
pub open spec fn store_via<B: Bus>(c: CpuView, s: B::State, vaddr: u64, n: nat, val: u64) -> (Result<(), Trap>, B::State) {
    match xlate::<B>(c, s, vaddr, AccessType::Store) {
        (Ok(pa), s1) => B::write_outcome(s1, pa, n, val),
        (Err(t), s1) => (Err(t), s1),
    }
}

/// Truncating division, as Rust and RISC-V define it: the quotient rounds
/// toward zero.
pub open spec fn trunc_div(a: int, b: int) -> int {
    let q = (vstd::math::abs(a) / vstd::math::abs(b)) as int;
    if (a < 0) != (b < 0) { -q } else { q }
}

/// The remainder of truncating division: it has the sign of the dividend.
pub open spec fn trunc_rem(a: int, b: int) -> int {
    let r = (vstd::math::abs(a) % vstd::math::abs(b)) as int;
    if a < 0 { -r } else { r }
}

/// MUL: low 64 bits of the product.
pub open spec fn mul_lo_spec(a: u64, b: u64) -> u64 {
    ((a as i64 as int) * (b as i64 as int)) as i64 as u64
}

/// MULH: high 64 bits of the signed product.
pub open spec fn mulh_spec(a: u64, b: u64) -> u64 {
    ((((a as i64 as int) * (b as i64 as int)) as i128) >> 64u32) as i64 as u64
}

/// MULHSU: high 64 bits of the signed-by-unsigned product.
pub open spec fn mulhsu_spec(a: u64, b: u64) -> u64 {
    ((((a as i64 as int) * (b as int)) as i128) >> 64u32) as i64 as u64
}

/// MULHU: high 64 bits of the unsigned product.
pub open spec fn mulhu_spec(a: u64, b: u64) -> u64 {
    ((((a as int) * (b as int)) as u128) >> 64u32) as u64
}

/// MULW: the low word of the product, sign-extended.
pub open spec fn mulw_spec(a: u64, b: u64) -> u64 {
    ((a as i32 as int) * (b as i32 as int)) as i32 as i64 as u64
}

/// DIV: by zero gives all ones; MIN / -1 gives MIN.
pub open spec fn div_spec(a: u64, b: u64) -> u64 {
    let (sa, sb) = (a as i64, b as i64);
    if sb == 0 { -1i64 as u64 } else if sa == i64::MIN && sb == -1 { i64::MIN as u64 } else { trunc_div(sa as int, sb as int) as i64 as u64 }
}

/// DIVU: by zero gives all ones.
pub open spec fn divu_spec(a: u64, b: u64) -> u64 {
    if b == 0 { u64::MAX } else { a / b }
}

/// REM: by zero gives the dividend; MIN % -1 gives 0.
pub open spec fn rem_spec(a: u64, b: u64) -> u64 {
    let (sa, sb) = (a as i64, b as i64);
    if sb == 0 { sa as u64 } else if sa == i64::MIN && sb == -1 { 0 } else { trunc_rem(sa as int, sb as int) as i64 as u64 }
}

/// REMU: by zero gives the dividend.
pub open spec fn remu_spec(a: u64, b: u64) -> u64 {
    if b == 0 { a } else { a % b }
}

/// DIVW: word division, sign-extended.
pub open spec fn divw_spec(a: u64, b: u64) -> u64 {
    let (sa, sb) = (a as i32, b as i32);
    if sb == 0 { -1i32 as i64 as u64 } else if sa == i32::MIN && sb == -1 { i32::MIN as i64 as u64 } else { trunc_div(sa as int, sb as int) as i32 as i64 as u64 }
}

/// DIVUW: unsigned word division, sign-extended.
pub open spec fn divuw_spec(a: u64, b: u64) -> u64 {
    let (ua, ub) = (a as u32, b as u32);
    if ub == 0 { u32::MAX as i32 as i64 as u64 } else { (ua / ub) as i32 as i64 as u64 }
}

/// REMW: word remainder, sign-extended.
pub open spec fn remw_spec(a: u64, b: u64) -> u64 {
    let (sa, sb) = (a as i32, b as i32);
    if sb == 0 { sa as i64 as u64 } else if sa == i32::MIN && sb == -1 { 0 } else { trunc_rem(sa as int, sb as int) as i32 as i64 as u64 }
}

/// REMUW: unsigned word remainder, sign-extended.
pub open spec fn remuw_spec(a: u64, b: u64) -> u64 {
    let (ua, ub) = (a as u32, b as u32);
    if ub == 0 { ua as i32 as i64 as u64 } else { (ua % ub) as i32 as i64 as u64 }
}

/// The destination and value of a register-only operation, from the
/// registers `c` (read as stored) and the block's start `base`; `None` for
/// the other operations.
pub open spec fn alu_spec(op: MicroOp, c: CpuView, base: u64) -> Option<(u8, u64)> {
    match op {
        MicroOp::Addi { rd, rs1, imm } => { let x1 = c.regs[rs1 as int]; Some((rd, vstd::wrapping::u64_specs::wrapping_add(x1, imm as u64))) },
        MicroOp::Add { rd, rs1, rs2 } => { let x1 = c.regs[rs1 as int]; let x2 = c.regs[rs2 as int]; Some((rd, vstd::wrapping::u64_specs::wrapping_add(x1, x2))) },
        MicroOp::Sub { rd, rs1, rs2 } => { let x1 = c.regs[rs1 as int]; let x2 = c.regs[rs2 as int]; Some((rd, vstd::wrapping::u64_specs::wrapping_sub(x1, x2))) },
        MicroOp::Xori { rd, rs1, imm } => { let x1 = c.regs[rs1 as int]; Some((rd, x1 ^ (imm as u64))) },
        MicroOp::Ori { rd, rs1, imm } => { let x1 = c.regs[rs1 as int]; Some((rd, x1 | (imm as u64))) },
        MicroOp::Andi { rd, rs1, imm } => { let x1 = c.regs[rs1 as int]; Some((rd, x1 & (imm as u64))) },
        MicroOp::Xor { rd, rs1, rs2 } => { let x1 = c.regs[rs1 as int]; let x2 = c.regs[rs2 as int]; Some((rd, x1 ^ x2)) },
        MicroOp::Or { rd, rs1, rs2 } => { let x1 = c.regs[rs1 as int]; let x2 = c.regs[rs2 as int]; Some((rd, x1 | x2)) },
        MicroOp::And { rd, rs1, rs2 } => { let x1 = c.regs[rs1 as int]; let x2 = c.regs[rs2 as int]; Some((rd, x1 & x2)) },
        MicroOp::Slli { rd, rs1, shamt } => { let x1 = c.regs[rs1 as int]; Some((rd, x1 << shamt)) },
        MicroOp::Srli { rd, rs1, shamt } => { let x1 = c.regs[rs1 as int]; Some((rd, x1 >> shamt)) },
        MicroOp::Srai { rd, rs1, shamt } => { let x1 = c.regs[rs1 as int]; Some((rd, ((x1 as i64) >> shamt) as u64)) },
        MicroOp::Sll { rd, rs1, rs2 } => { let x1 = c.regs[rs1 as int]; let x2 = c.regs[rs2 as int]; Some((rd, x1 << (x2 & 0x3F))) },
        MicroOp::Srl { rd, rs1, rs2 } => { let x1 = c.regs[rs1 as int]; let x2 = c.regs[rs2 as int]; Some((rd, x1 >> (x2 & 0x3F))) },
        MicroOp::Sra { rd, rs1, rs2 } => { let x1 = c.regs[rs1 as int]; let x2 = c.regs[rs2 as int]; Some((rd, ((x1 as i64) >> (x2 & 0x3F)) as u64)) },
        MicroOp::Slti { rd, rs1, imm } => { let x1 = c.regs[rs1 as int]; Some((rd, if (x1 as i64) < imm { 1u64 } else { 0u64 })) },
        MicroOp::Sltiu { rd, rs1, imm } => { let x1 = c.regs[rs1 as int]; Some((rd, if x1 < (imm as u64) { 1u64 } else { 0u64 })) },
        MicroOp::Slt { rd, rs1, rs2 } => { let x1 = c.regs[rs1 as int]; let x2 = c.regs[rs2 as int]; Some((rd, if (x1 as i64) < (x2 as i64) { 1u64 } else { 0u64 })) },
        MicroOp::Sltu { rd, rs1, rs2 } => { let x1 = c.regs[rs1 as int]; let x2 = c.regs[rs2 as int]; Some((rd, if x1 < x2 { 1u64 } else { 0u64 })) },
        MicroOp::Addiw { rd, rs1, imm } => { let x1 = c.regs[rs1 as int]; Some((rd, (vstd::wrapping::u64_specs::wrapping_add(x1, imm as u64) as i32) as i64 as u64)) },
        MicroOp::Addw { rd, rs1, rs2 } => { let x1 = c.regs[rs1 as int]; let x2 = c.regs[rs2 as int]; Some((rd, (vstd::wrapping::u64_specs::wrapping_add(x1, x2) as i32) as i64 as u64)) },
        MicroOp::Subw { rd, rs1, rs2 } => { let x1 = c.regs[rs1 as int]; let x2 = c.regs[rs2 as int]; Some((rd, (vstd::wrapping::u64_specs::wrapping_sub(x1, x2) as i32) as i64 as u64)) },
        MicroOp::Slliw { rd, rs1, shamt } => { let x1 = c.regs[rs1 as int]; Some((rd, ((x1 as u32) << shamt) as i32 as i64 as u64)) },
        MicroOp::Srliw { rd, rs1, shamt } => { let x1 = c.regs[rs1 as int]; Some((rd, ((x1 as u32) >> shamt) as i32 as i64 as u64)) },
        MicroOp::Sraiw { rd, rs1, shamt } => { let x1 = c.regs[rs1 as int]; Some((rd, ((x1 as i32) >> shamt) as i64 as u64)) },
        MicroOp::Sllw { rd, rs1, rs2 } => { let x1 = c.regs[rs1 as int]; let x2 = c.regs[rs2 as int]; Some((rd, ((x1 as u32) << (x2 & 0x1F)) as i32 as i64 as u64)) },
        MicroOp::Srlw { rd, rs1, rs2 } => { let x1 = c.regs[rs1 as int]; let x2 = c.regs[rs2 as int]; Some((rd, ((x1 as u32) >> (x2 & 0x1F)) as i32 as i64 as u64)) },
        MicroOp::Sraw { rd, rs1, rs2 } => { let x1 = c.regs[rs1 as int]; let x2 = c.regs[rs2 as int]; Some((rd, ((x1 as i32) >> (x2 & 0x1F)) as i64 as u64)) },
        MicroOp::Mul { rd, rs1, rs2 } => { let x1 = c.regs[rs1 as int]; let x2 = c.regs[rs2 as int]; Some((rd, mul_lo_spec(x1, x2))) },
        MicroOp::Mulh { rd, rs1, rs2 } => { let x1 = c.regs[rs1 as int]; let x2 = c.regs[rs2 as int]; Some((rd, mulh_spec(x1, x2))) },
        MicroOp::Mulhsu { rd, rs1, rs2 } => { let x1 = c.regs[rs1 as int]; let x2 = c.regs[rs2 as int]; Some((rd, mulhsu_spec(x1, x2))) },
        MicroOp::Mulhu { rd, rs1, rs2 } => { let x1 = c.regs[rs1 as int]; let x2 = c.regs[rs2 as int]; Some((rd, mulhu_spec(x1, x2))) },
        MicroOp::Div { rd, rs1, rs2 } => { let x1 = c.regs[rs1 as int]; let x2 = c.regs[rs2 as int]; Some((rd, div_spec(x1, x2))) },
        MicroOp::Divu { rd, rs1, rs2 } => { let x1 = c.regs[rs1 as int]; let x2 = c.regs[rs2 as int]; Some((rd, divu_spec(x1, x2))) },
        MicroOp::Rem { rd, rs1, rs2 } => { let x1 = c.regs[rs1 as int]; let x2 = c.regs[rs2 as int]; Some((rd, rem_spec(x1, x2))) },
        MicroOp::Remu { rd, rs1, rs2 } => { let x1 = c.regs[rs1 as int]; let x2 = c.regs[rs2 as int]; Some((rd, remu_spec(x1, x2))) },
        MicroOp::Mulw { rd, rs1, rs2 } => { let x1 = c.regs[rs1 as int]; let x2 = c.regs[rs2 as int]; Some((rd, mulw_spec(x1, x2))) },
        MicroOp::Divw { rd, rs1, rs2 } => { let x1 = c.regs[rs1 as int]; let x2 = c.regs[rs2 as int]; Some((rd, divw_spec(x1, x2))) },
        MicroOp::Divuw { rd, rs1, rs2 } => { let x1 = c.regs[rs1 as int]; let x2 = c.regs[rs2 as int]; Some((rd, divuw_spec(x1, x2))) },
        MicroOp::Remw { rd, rs1, rs2 } => { let x1 = c.regs[rs1 as int]; let x2 = c.regs[rs2 as int]; Some((rd, remw_spec(x1, x2))) },
        MicroOp::Remuw { rd, rs1, rs2 } => { let x1 = c.regs[rs1 as int]; let x2 = c.regs[rs2 as int]; Some((rd, remuw_spec(x1, x2))) },
        MicroOp::Lui { rd, imm } => Some((rd, imm as u64)),
        MicroOp::Auipc { rd, imm, pc_offset } => Some((rd, vstd::wrapping::u64_specs::wrapping_add(
            vstd::wrapping::u64_specs::wrapping_add(base, pc_offset as u64), imm as u64))),
        _ => None,
    }
}

/// `c` with `val` written to register `rd` (writes to x0 are dropped).
pub open spec fn set_reg(c: CpuView, rd: u8, val: u64) -> CpuView {
    if rd == 0 { c } else { CpuView { regs: c.regs.update(rd as int, val), ..c } }
}

/// `c` after a store to `addr`: a reservation on its granule is dropped.
pub open spec fn after_store(c: CpuView, addr: u64) -> CpuView {
    CpuView {
        reservation: match c.reservation {
            Some(res) => if granule(res) == granule(addr) { None } else { Some(res) },
            None => None,
        },
        ..c
    }
}

/// The address of instruction `pc_offset` of a block at `base`.
pub open spec fn op_pc(base: u64, pc_offset: u32) -> u64 {
    vstd::wrapping::u64_specs::wrapping_add(base, pc_offset as u64)
}

/// The address `x[rs1] + imm` of a load or store.
pub open spec fn ea(c: CpuView, rs1: u8, imm: i64) -> u64 {
    vstd::wrapping::u64_specs::wrapping_add(c.regs[rs1 as int], imm as u64)
}

/// One operation: `None` with the hart and bus after it when the block goes
/// on, or how the block ends.
pub open spec fn op_step<B: Bus>(c: CpuView, base: u64, op: MicroOp, s: B::State) -> (Option<BlockExecResult>, CpuView, B::State) {
    match alu_spec(op, c, base) {
        Some((rd, val)) => (None, set_reg(c, rd, val), s),
        None => match op {
            MicroOp::Ld { rd, rs1, imm, pc_offset } => match load_via::<B>(c, s, ea(c, rs1, imm), 8) {
                (Ok(v), s1) => (None, set_reg(c, rd, v), s1),
                (Err(t), s1) => (Some(BlockExecResult::Trap { trap: t, fault_pc: op_pc(base, pc_offset) }), c, s1),
            },
            MicroOp::Lw { rd, rs1, imm, pc_offset } => match load_via::<B>(c, s, ea(c, rs1, imm), 4) {
                (Ok(v), s1) => (None, set_reg(c, rd, ((v as u32) as i32) as i64 as u64), s1),
                (Err(t), s1) => (Some(BlockExecResult::Trap { trap: t, fault_pc: op_pc(base, pc_offset) }), c, s1),
            },
            MicroOp::Lwu { rd, rs1, imm, pc_offset } => match load_via::<B>(c, s, ea(c, rs1, imm), 4) {
                (Ok(v), s1) => (None, set_reg(c, rd, (v as u32) as u64), s1),
                (Err(t), s1) => (Some(BlockExecResult::Trap { trap: t, fault_pc: op_pc(base, pc_offset) }), c, s1),
            },
            MicroOp::Lh { rd, rs1, imm, pc_offset } => match load_via::<B>(c, s, ea(c, rs1, imm), 2) {
                (Ok(v), s1) => (None, set_reg(c, rd, ((v as u16) as i16) as i64 as u64), s1),
                (Err(t), s1) => (Some(BlockExecResult::Trap { trap: t, fault_pc: op_pc(base, pc_offset) }), c, s1),
            },
            MicroOp::Lhu { rd, rs1, imm, pc_offset } => match load_via::<B>(c, s, ea(c, rs1, imm), 2) {
                (Ok(v), s1) => (None, set_reg(c, rd, (v as u16) as u64), s1),
                (Err(t), s1) => (Some(BlockExecResult::Trap { trap: t, fault_pc: op_pc(base, pc_offset) }), c, s1),
            },
            MicroOp::Lb { rd, rs1, imm, pc_offset } => match load_via::<B>(c, s, ea(c, rs1, imm), 1) {
                (Ok(v), s1) => (None, set_reg(c, rd, ((v as u8) as i8) as i64 as u64), s1),
                (Err(t), s1) => (Some(BlockExecResult::Trap { trap: t, fault_pc: op_pc(base, pc_offset) }), c, s1),
            },
            MicroOp::Lbu { rd, rs1, imm, pc_offset } => match load_via::<B>(c, s, ea(c, rs1, imm), 1) {
                (Ok(v), s1) => (None, set_reg(c, rd, (v as u8) as u64), s1),
                (Err(t), s1) => (Some(BlockExecResult::Trap { trap: t, fault_pc: op_pc(base, pc_offset) }), c, s1),
            },
            MicroOp::Sd { rs1, rs2, imm, pc_offset } => {
                let x2 = c.regs[rs2 as int];
                match store_via::<B>(c, s, ea(c, rs1, imm), 8, x2) {
                    (Ok(_), s1) => (None, after_store(c, ea(c, rs1, imm)), s1),
                    (Err(t), s1) => (Some(BlockExecResult::Trap { trap: t, fault_pc: op_pc(base, pc_offset) }), c, s1),
                }
            },
            MicroOp::Sw { rs1, rs2, imm, pc_offset } => {
                let x2 = c.regs[rs2 as int];
                match store_via::<B>(c, s, ea(c, rs1, imm), 4, (x2 as u32) as u64) {
                    (Ok(_), s1) => (None, after_store(c, ea(c, rs1, imm)), s1),
                    (Err(t), s1) => (Some(BlockExecResult::Trap { trap: t, fault_pc: op_pc(base, pc_offset) }), c, s1),
                }
            },
            MicroOp::Sh { rs1, rs2, imm, pc_offset } => {
                let x2 = c.regs[rs2 as int];
                match store_via::<B>(c, s, ea(c, rs1, imm), 2, (x2 as u16) as u64) {
                    (Ok(_), s1) => (None, after_store(c, ea(c, rs1, imm)), s1),
                    (Err(t), s1) => (Some(BlockExecResult::Trap { trap: t, fault_pc: op_pc(base, pc_offset) }), c, s1),
                }
            },
            MicroOp::Sb { rs1, rs2, imm, pc_offset } => {
                let x2 = c.regs[rs2 as int];
                match store_via::<B>(c, s, ea(c, rs1, imm), 1, (x2 as u8) as u64) {
                    (Ok(_), s1) => (None, after_store(c, ea(c, rs1, imm)), s1),
                    (Err(t), s1) => (Some(BlockExecResult::Trap { trap: t, fault_pc: op_pc(base, pc_offset) }), c, s1),
                }
            },
            MicroOp::Jal { rd, imm, pc_offset, insn_len } => {
                let pc = op_pc(base, pc_offset);
                (Some(BlockExecResult::Continue(vstd::wrapping::u64_specs::wrapping_add(pc, imm as u64))),
                    set_reg(c, rd, vstd::wrapping::u64_specs::wrapping_add(pc, insn_len as u64)), s)
            },
            MicroOp::Jalr { rd, rs1, imm, pc_offset, insn_len } => {
                let pc = op_pc(base, pc_offset);
                let target = vstd::wrapping::u64_specs::wrapping_add(c.regs[rs1 as int], imm as u64) & !1u64;
                (Some(BlockExecResult::Continue(target)), set_reg(c, rd, vstd::wrapping::u64_specs::wrapping_add(pc, insn_len as u64)), s)
            },
            MicroOp::Beq { rs1, rs2, imm, pc_offset, insn_len } => {
                let (x1, x2) = (c.regs[rs1 as int], c.regs[rs2 as int]);
                let pc = op_pc(base, pc_offset);
                (Some(BlockExecResult::Continue(if x1 == x2 { vstd::wrapping::u64_specs::wrapping_add(pc, imm as u64) } else { vstd::wrapping::u64_specs::wrapping_add(pc, insn_len as u64) })), c, s)
            },
            MicroOp::Bne { rs1, rs2, imm, pc_offset, insn_len } => {
                let (x1, x2) = (c.regs[rs1 as int], c.regs[rs2 as int]);
                let pc = op_pc(base, pc_offset);
                (Some(BlockExecResult::Continue(if x1 != x2 { vstd::wrapping::u64_specs::wrapping_add(pc, imm as u64) } else { vstd::wrapping::u64_specs::wrapping_add(pc, insn_len as u64) })), c, s)
            },
            MicroOp::Blt { rs1, rs2, imm, pc_offset, insn_len } => {
                let (x1, x2) = (c.regs[rs1 as int], c.regs[rs2 as int]);
                let pc = op_pc(base, pc_offset);
                (Some(BlockExecResult::Continue(if (x1 as i64) < (x2 as i64) { vstd::wrapping::u64_specs::wrapping_add(pc, imm as u64) } else { vstd::wrapping::u64_specs::wrapping_add(pc, insn_len as u64) })), c, s)
            },
            MicroOp::Bge { rs1, rs2, imm, pc_offset, insn_len } => {
                let (x1, x2) = (c.regs[rs1 as int], c.regs[rs2 as int]);
                let pc = op_pc(base, pc_offset);
                (Some(BlockExecResult::Continue(if (x1 as i64) >= (x2 as i64) { vstd::wrapping::u64_specs::wrapping_add(pc, imm as u64) } else { vstd::wrapping::u64_specs::wrapping_add(pc, insn_len as u64) })), c, s)
            },
            MicroOp::Bltu { rs1, rs2, imm, pc_offset, insn_len } => {
                let (x1, x2) = (c.regs[rs1 as int], c.regs[rs2 as int]);
                let pc = op_pc(base, pc_offset);
                (Some(BlockExecResult::Continue(if x1 < x2 { vstd::wrapping::u64_specs::wrapping_add(pc, imm as u64) } else { vstd::wrapping::u64_specs::wrapping_add(pc, insn_len as u64) })), c, s)
            },
            MicroOp::Bgeu { rs1, rs2, imm, pc_offset, insn_len } => {
                let (x1, x2) = (c.regs[rs1 as int], c.regs[rs2 as int]);
                let pc = op_pc(base, pc_offset);
                (Some(BlockExecResult::Continue(if x1 >= x2 { vstd::wrapping::u64_specs::wrapping_add(pc, imm as u64) } else { vstd::wrapping::u64_specs::wrapping_add(pc, insn_len as u64) })), c, s)
            },
            MicroOp::Ecall { pc_offset } => (Some(BlockExecResult::Exit { next_pc: op_pc(base, pc_offset) }), c, s),
            MicroOp::Ebreak { pc_offset } => (Some(BlockExecResult::Exit { next_pc: op_pc(base, pc_offset) }), c, s),
            MicroOp::Mret { pc_offset } => (Some(BlockExecResult::Exit { next_pc: op_pc(base, pc_offset) }), c, s),
            MicroOp::Sret { pc_offset } => (Some(BlockExecResult::Exit { next_pc: op_pc(base, pc_offset) }), c, s),
            MicroOp::SfenceVma { pc_offset } => (Some(BlockExecResult::Exit { next_pc: op_pc(base, pc_offset) }), c, s),
            MicroOp::Csr { pc_offset } => (Some(BlockExecResult::Exit { next_pc: op_pc(base, pc_offset) }), c, s),
            MicroOp::LoadReserved { pc_offset } => (Some(BlockExecResult::Exit { next_pc: op_pc(base, pc_offset) }), c, s),
            MicroOp::StoreConditional { pc_offset } => (Some(BlockExecResult::Exit { next_pc: op_pc(base, pc_offset) }), c, s),
            MicroOp::Amo { pc_offset } => (Some(BlockExecResult::Exit { next_pc: op_pc(base, pc_offset) }), c, s),
            _ => (None, c, s),
        },
    }
}

/// The operations from index `i` on, each on the hart and bus the previous
/// one left; past the last one the block continues after its bytes.
pub open spec fn run_ops<B: Bus>(c: CpuView, base: u64, byte_len: u32, ops: Seq<MicroOp>, i: nat, s: B::State)
    -> (BlockExecResult, CpuView, B::State)
    decreases ops.len() - i,
{
    if i >= ops.len() {
        (BlockExecResult::Continue(vstd::wrapping::u64_specs::wrapping_add(base, byte_len as u64)), c, s)
    } else {
        match op_step::<B>(c, base, ops[i as int], s) {
            (None, c1, s1) => run_ops::<B>(c1, base, byte_len, ops, i + 1, s1),
            (Some(r), c1, s1) => (r, c1, s1),
        }
    }
}

/// What running `block` does: its result, and the hart and bus after it.
pub open spec fn exec_block_spec<B: Bus>(c: CpuView, block: Block, s: B::State) -> (BlockExecResult, CpuView, B::State) {
    run_ops::<B>(c, block.start_pc, block.byte_len, block.ops@, 0, s)
}


/// `|a|` of a 64-bit value, as an unsigned value.
fn magnitude64(a: i64) -> (r: u64)
    ensures
        r == vstd::math::abs(a as int),
{
    if a < 0 { (-(a as i128)) as u64 } else { a as u64 }
}

/// Truncating signed division of 64-bit values.
fn trunc_div64(a: i64, b: i64) -> (r: i64)
    requires
        b != 0,
        !(a == i64::MIN && b == -1),
    ensures
        r == trunc_div(a as int, b as int),
{
    let ua = magnitude64(a);
    let ub = magnitude64(b);
    let q = ua / ub;
    proof {
        assert(q <= ua) by (nonlinear_arith)
            requires
                ub >= 1,
                q == ua / ub,
        ;
        if a == i64::MIN && b < 0 {
            assert(ub >= 2);
            assert(q <= ua / 2) by (nonlinear_arith)
                requires
                    ub >= 2,
                    q == ua / ub,
            ;
        }
    }
    let r: i128 = if (a < 0) != (b < 0) { -(q as i128) } else { q as i128 };
    r as i64
}

/// Remainder of truncating signed division of 64-bit values.
fn trunc_rem64(a: i64, b: i64) -> (r: i64)
    requires
        b != 0,
    ensures
        r == trunc_rem(a as int, b as int),
{
    let ua = magnitude64(a);
    let ub = magnitude64(b);
    let m = ua % ub;
    proof {
        assert(m <= ua && m < ub) by (nonlinear_arith)
            requires
                ub >= 1,
                m == ua % ub,
        ;
    }
    let r: i128 = if a < 0 { -(m as i128) } else { m as i128 };
    r as i64
}

/// MUL.
fn mul_lo(a: u64, b: u64) -> (r: u64)
    ensures
        r == mul_lo_spec(a, b),
{
    let x = a as i64 as i128;
    let y = b as i64 as i128;
    proof {
        assert(-0x8000_0000_0000_0000 * 0x8000_0000_0000_0000 <= x * y <= 0x8000_0000_0000_0000 * 0x8000_0000_0000_0000)
            by (nonlinear_arith)
            requires
                -0x8000_0000_0000_0000 <= x <= 0x7fff_ffff_ffff_ffff,
                -0x8000_0000_0000_0000 <= y <= 0x7fff_ffff_ffff_ffff,
        ;
    }
    ((x * y) as i64) as u64
}

/// MULH.
fn mulh(a: u64, b: u64) -> (r: u64)
    ensures
        r == mulh_spec(a, b),
{
    let x = a as i64 as i128;
    let y = b as i64 as i128;
    proof {
        assert(-0x8000_0000_0000_0000 * 0x8000_0000_0000_0000 <= x * y <= 0x8000_0000_0000_0000 * 0x8000_0000_0000_0000)
            by (nonlinear_arith)
            requires
                -0x8000_0000_0000_0000 <= x <= 0x7fff_ffff_ffff_ffff,
                -0x8000_0000_0000_0000 <= y <= 0x7fff_ffff_ffff_ffff,
        ;
    }
    (((x * y) >> 64u32) as i64) as u64
}

/// MULHSU.
fn mulhsu(a: u64, b: u64) -> (r: u64)
    ensures
        r == mulhsu_spec(a, b),
{
    let x = a as i64 as i128;
    let y = b as i128;
    proof {
        assert(-0x8000_0000_0000_0000 * 0xffff_ffff_ffff_ffff <= x * y <= 0x7fff_ffff_ffff_ffff * 0xffff_ffff_ffff_ffff)
            by (nonlinear_arith)
            requires
                -0x8000_0000_0000_0000 <= x <= 0x7fff_ffff_ffff_ffff,
                0 <= y <= 0xffff_ffff_ffff_ffff,
        ;
    }
    (((x * y) >> 64u32) as i64) as u64
}

/// MULHU.
fn mulhu(a: u64, b: u64) -> (r: u64)
    ensures
        r == mulhu_spec(a, b),
{
    let x = a as u128;
    let y = b as u128;
    proof {
        assert(x * y <= 0xffff_ffff_ffff_ffff * 0xffff_ffff_ffff_ffff) by (nonlinear_arith)
            requires
                x <= 0xffff_ffff_ffff_ffff,
                y <= 0xffff_ffff_ffff_ffff,
        ;
    }
    ((x * y) >> 64u32) as u64
}

/// MULW.
fn mulw(a: u64, b: u64) -> (r: u64)
    ensures
        r == mulw_spec(a, b),
{
    let x = a as i32 as i64;
    let y = b as i32 as i64;
    proof {
        assert(-0x8000_0000 * 0x8000_0000 <= x * y <= 0x8000_0000 * 0x8000_0000) by (nonlinear_arith)
            requires
                -0x8000_0000 <= x <= 0x7fff_ffff,
                -0x8000_0000 <= y <= 0x7fff_ffff,
        ;
    }
    (x * y) as i32 as i64 as u64
}

/// DIV.
fn div_s(a: u64, b: u64) -> (r: u64)
    ensures
        r == div_spec(a, b),
{
    let (sa, sb) = (a as i64, b as i64);
    if sb == 0 {
        -1i64 as u64
    } else if sa == i64::MIN && sb == -1 {
        i64::MIN as u64
    } else {
        trunc_div64(sa, sb) as u64
    }
}

/// DIVU.
fn div_u(a: u64, b: u64) -> (r: u64)
    ensures
        r == divu_spec(a, b),
{
    if b == 0 { u64::MAX } else { a / b }
}

/// REM.
fn rem_s(a: u64, b: u64) -> (r: u64)
    ensures
        r == rem_spec(a, b),
{
    let (sa, sb) = (a as i64, b as i64);
    if sb == 0 {
        sa as u64
    } else if sa == i64::MIN && sb == -1 {
        0
    } else {
        trunc_rem64(sa, sb) as u64
    }
}

/// REMU.
fn rem_u(a: u64, b: u64) -> (r: u64)
    ensures
        r == remu_spec(a, b),
{
    if b == 0 { a } else { a % b }
}

/// DIVW.
fn div_w(a: u64, b: u64) -> (r: u64)
    ensures
        r == divw_spec(a, b),
{
    let (sa, sb) = (a as i32, b as i32);
    if sb == 0 {
        -1i32 as i64 as u64
    } else if sa == i32::MIN && sb == -1 {
        i32::MIN as i64 as u64
    } else {
        let q = trunc_div64(sa as i64, sb as i64);
        proof {
            assert(vstd::math::abs(sa as int) / vstd::math::abs(sb as int) <= vstd::math::abs(sa as int)) by (nonlinear_arith)
                requires
                    vstd::math::abs(sb as int) >= 1,
            ;
        }
        q as i32 as i64 as u64
    }
}

/// DIVUW.
fn div_uw(a: u64, b: u64) -> (r: u64)
    ensures
        r == divuw_spec(a, b),
{
    let (ua, ub) = (a as u32, b as u32);
    if ub == 0 { u32::MAX as i32 as i64 as u64 } else { (ua / ub) as i32 as i64 as u64 }
}

/// REMW.
fn rem_w(a: u64, b: u64) -> (r: u64)
    ensures
        r == remw_spec(a, b),
{
    let (sa, sb) = (a as i32, b as i32);
    if sb == 0 {
        sa as i64 as u64
    } else if sa == i32::MIN && sb == -1 {
        0
    } else {
        let m = trunc_rem64(sa as i64, sb as i64);
        proof {
            assert(vstd::math::abs(sa as int) % vstd::math::abs(sb as int) < vstd::math::abs(sb as int)) by (nonlinear_arith)
                requires
                    vstd::math::abs(sb as int) >= 1,
            ;
        }
        m as i32 as i64 as u64
    }
}

/// REMUW.
fn rem_uw(a: u64, b: u64) -> (r: u64)
    ensures
        r == remuw_spec(a, b),
{
    let (ua, ub) = (a as u32, b as u32);
    if ub == 0 { ua as i32 as i64 as u64 } else { (ua % ub) as i32 as i64 as u64 }
}


/// Register-shift amounts are masked to the operand width.
proof fn lemma_shift_masks(x: u64)
    by (bit_vector)
    ensures
        x & 0x3F < 64,
        x & 0x1F < 32,
{
}

impl Cpu {
    /// The destination and value of a register-only operation; `None` for
    /// the other operations.
    fn alu(&self, op: MicroOp, base: u64) -> (r: Option<(u8, u64)>)
        requires
            op_wf(op),
        ensures
            r == alu_spec(op, self@, base),
    {
        match op {
            MicroOp::Addi { rd, rs1, imm } => { let x1 = self.regs[rs1 as usize]; Some((rd, x1.wrapping_add(imm as u64))) },
            MicroOp::Add { rd, rs1, rs2 } => { let x1 = self.regs[rs1 as usize]; let x2 = self.regs[rs2 as usize]; Some((rd, x1.wrapping_add(x2))) },
            MicroOp::Sub { rd, rs1, rs2 } => { let x1 = self.regs[rs1 as usize]; let x2 = self.regs[rs2 as usize]; Some((rd, x1.wrapping_sub(x2))) },
            MicroOp::Xori { rd, rs1, imm } => { let x1 = self.regs[rs1 as usize]; Some((rd, x1 ^ (imm as u64))) },
            MicroOp::Ori { rd, rs1, imm } => { let x1 = self.regs[rs1 as usize]; Some((rd, x1 | (imm as u64))) },
            MicroOp::Andi { rd, rs1, imm } => { let x1 = self.regs[rs1 as usize]; Some((rd, x1 & (imm as u64))) },
            MicroOp::Xor { rd, rs1, rs2 } => { let x1 = self.regs[rs1 as usize]; let x2 = self.regs[rs2 as usize]; Some((rd, x1 ^ x2)) },
            MicroOp::Or { rd, rs1, rs2 } => { let x1 = self.regs[rs1 as usize]; let x2 = self.regs[rs2 as usize]; Some((rd, x1 | x2)) },
            MicroOp::And { rd, rs1, rs2 } => { let x1 = self.regs[rs1 as usize]; let x2 = self.regs[rs2 as usize]; Some((rd, x1 & x2)) },
            MicroOp::Slli { rd, rs1, shamt } => { let x1 = self.regs[rs1 as usize]; Some((rd, x1 << shamt)) },
            MicroOp::Srli { rd, rs1, shamt } => { let x1 = self.regs[rs1 as usize]; Some((rd, x1 >> shamt)) },
            MicroOp::Srai { rd, rs1, shamt } => { let x1 = self.regs[rs1 as usize]; Some((rd, ((x1 as i64) >> shamt) as u64)) },
            MicroOp::Sll { rd, rs1, rs2 } => { let x1 = self.regs[rs1 as usize]; let x2 = self.regs[rs2 as usize]; proof { lemma_shift_masks(x2); } Some((rd, x1 << (x2 & 0x3F))) },
            MicroOp::Srl { rd, rs1, rs2 } => { let x1 = self.regs[rs1 as usize]; let x2 = self.regs[rs2 as usize]; proof { lemma_shift_masks(x2); } Some((rd, x1 >> (x2 & 0x3F))) },
            MicroOp::Sra { rd, rs1, rs2 } => { let x1 = self.regs[rs1 as usize]; let x2 = self.regs[rs2 as usize]; proof { lemma_shift_masks(x2); } Some((rd, ((x1 as i64) >> (x2 & 0x3F)) as u64)) },
            MicroOp::Slti { rd, rs1, imm } => { let x1 = self.regs[rs1 as usize]; Some((rd, if (x1 as i64) < imm { 1u64 } else { 0u64 })) },
            MicroOp::Sltiu { rd, rs1, imm } => { let x1 = self.regs[rs1 as usize]; Some((rd, if x1 < (imm as u64) { 1u64 } else { 0u64 })) },
            MicroOp::Slt { rd, rs1, rs2 } => { let x1 = self.regs[rs1 as usize]; let x2 = self.regs[rs2 as usize]; Some((rd, if (x1 as i64) < (x2 as i64) { 1u64 } else { 0u64 })) },
            MicroOp::Sltu { rd, rs1, rs2 } => { let x1 = self.regs[rs1 as usize]; let x2 = self.regs[rs2 as usize]; Some((rd, if x1 < x2 { 1u64 } else { 0u64 })) },
            MicroOp::Addiw { rd, rs1, imm } => { let x1 = self.regs[rs1 as usize]; Some((rd, (x1.wrapping_add(imm as u64) as i32) as i64 as u64)) },
            MicroOp::Addw { rd, rs1, rs2 } => { let x1 = self.regs[rs1 as usize]; let x2 = self.regs[rs2 as usize]; Some((rd, (x1.wrapping_add(x2) as i32) as i64 as u64)) },
            MicroOp::Subw { rd, rs1, rs2 } => { let x1 = self.regs[rs1 as usize]; let x2 = self.regs[rs2 as usize]; Some((rd, (x1.wrapping_sub(x2) as i32) as i64 as u64)) },
            MicroOp::Slliw { rd, rs1, shamt } => { let x1 = self.regs[rs1 as usize]; Some((rd, ((x1 as u32) << shamt) as i32 as i64 as u64)) },
            MicroOp::Srliw { rd, rs1, shamt } => { let x1 = self.regs[rs1 as usize]; Some((rd, ((x1 as u32) >> shamt) as i32 as i64 as u64)) },
            MicroOp::Sraiw { rd, rs1, shamt } => { let x1 = self.regs[rs1 as usize]; Some((rd, ((x1 as i32) >> shamt) as i64 as u64)) },
            MicroOp::Sllw { rd, rs1, rs2 } => { let x1 = self.regs[rs1 as usize]; let x2 = self.regs[rs2 as usize]; proof { lemma_shift_masks(x2); } Some((rd, ((x1 as u32) << (x2 & 0x1F)) as i32 as i64 as u64)) },
            MicroOp::Srlw { rd, rs1, rs2 } => { let x1 = self.regs[rs1 as usize]; let x2 = self.regs[rs2 as usize]; proof { lemma_shift_masks(x2); } Some((rd, ((x1 as u32) >> (x2 & 0x1F)) as i32 as i64 as u64)) },
            MicroOp::Sraw { rd, rs1, rs2 } => { let x1 = self.regs[rs1 as usize]; let x2 = self.regs[rs2 as usize]; proof { lemma_shift_masks(x2); } Some((rd, ((x1 as i32) >> (x2 & 0x1F)) as i64 as u64)) },
            MicroOp::Mul { rd, rs1, rs2 } => { let x1 = self.regs[rs1 as usize]; let x2 = self.regs[rs2 as usize]; Some((rd, mul_lo(x1, x2))) },
            MicroOp::Mulh { rd, rs1, rs2 } => { let x1 = self.regs[rs1 as usize]; let x2 = self.regs[rs2 as usize]; Some((rd, mulh(x1, x2))) },
            MicroOp::Mulhsu { rd, rs1, rs2 } => { let x1 = self.regs[rs1 as usize]; let x2 = self.regs[rs2 as usize]; Some((rd, mulhsu(x1, x2))) },
            MicroOp::Mulhu { rd, rs1, rs2 } => { let x1 = self.regs[rs1 as usize]; let x2 = self.regs[rs2 as usize]; Some((rd, mulhu(x1, x2))) },
            MicroOp::Div { rd, rs1, rs2 } => { let x1 = self.regs[rs1 as usize]; let x2 = self.regs[rs2 as usize]; Some((rd, div_s(x1, x2))) },
            MicroOp::Divu { rd, rs1, rs2 } => { let x1 = self.regs[rs1 as usize]; let x2 = self.regs[rs2 as usize]; Some((rd, div_u(x1, x2))) },
            MicroOp::Rem { rd, rs1, rs2 } => { let x1 = self.regs[rs1 as usize]; let x2 = self.regs[rs2 as usize]; Some((rd, rem_s(x1, x2))) },
            MicroOp::Remu { rd, rs1, rs2 } => { let x1 = self.regs[rs1 as usize]; let x2 = self.regs[rs2 as usize]; Some((rd, rem_u(x1, x2))) },
            MicroOp::Mulw { rd, rs1, rs2 } => { let x1 = self.regs[rs1 as usize]; let x2 = self.regs[rs2 as usize]; Some((rd, mulw(x1, x2))) },
            MicroOp::Divw { rd, rs1, rs2 } => { let x1 = self.regs[rs1 as usize]; let x2 = self.regs[rs2 as usize]; Some((rd, div_w(x1, x2))) },
            MicroOp::Divuw { rd, rs1, rs2 } => { let x1 = self.regs[rs1 as usize]; let x2 = self.regs[rs2 as usize]; Some((rd, div_uw(x1, x2))) },
            MicroOp::Remw { rd, rs1, rs2 } => { let x1 = self.regs[rs1 as usize]; let x2 = self.regs[rs2 as usize]; Some((rd, rem_w(x1, x2))) },
            MicroOp::Remuw { rd, rs1, rs2 } => { let x1 = self.regs[rs1 as usize]; let x2 = self.regs[rs2 as usize]; Some((rd, rem_uw(x1, x2))) },
            MicroOp::Lui { rd, imm } => Some((rd, imm as u64)),
            MicroOp::Auipc { rd, imm, pc_offset } => Some((rd, base.wrapping_add(pc_offset as u64).wrapping_add(imm as u64))),
            _ => None,
        }
    }
}


impl Cpu {
    /// Translate `vaddr` for an access of kind `access` under the hart's
    /// privilege, satp and mstatus.
    pub fn translate_data<B: Bus>(&self, bus: &mut B, vaddr: u64, access: AccessType) -> (r: Result<u64, Trap>)
        requires
            old(bus).inv(),
        ensures
            final(bus).inv(),
            (r, final(bus).state()) == xlate::<B>(self@, old(bus).state(), vaddr, access),
    {
        proof { lemma_csr_file_len(&self.csrs); }
        let satp = self.csrs.get(CSR_SATP as usize);
        let mstatus = self.csrs.get(CSR_MSTATUS as usize);
        translate(bus, self.mode, satp, mstatus, vaddr, access)
    }

    /// Run one operation of a block at `base`: `None` when the block goes
    /// on, or how it ends.
    fn exec_op<B: Bus>(&mut self, base: u64, op: MicroOp, bus: &mut B) -> (r: Option<BlockExecResult>)
        requires
            op_wf(op),
            old(bus).inv(),
        ensures
            final(bus).inv(),
            (r, final(self)@, final(bus).state()) == op_step::<B>(old(self)@, base, op, old(bus).state()),
    {
        if let Some((rd, val)) = self.alu(op, base) {
            self.write_reg(rd as usize, val);
            return None;
        }
        match op {
            MicroOp::Ld { rd, rs1, imm, pc_offset } => {
                let addr = self.regs[rs1 as usize].wrapping_add(imm as u64);
                let addr = match self.translate_data(bus, addr, AccessType::Load) {
                    Ok(pa) => pa,
                    Err(t) => return Some(BlockExecResult::Trap { trap: t, fault_pc: base.wrapping_add(pc_offset as u64) }),
                };
                match bus.read64(addr) {
                    Ok(v) => {
                        self.write_reg(rd as usize, v);
                        None
                    },
                    Err(t) => Some(BlockExecResult::Trap { trap: t, fault_pc: base.wrapping_add(pc_offset as u64) }),
                }
            },
            MicroOp::Lw { rd, rs1, imm, pc_offset } => {
                let addr = self.regs[rs1 as usize].wrapping_add(imm as u64);
                let addr = match self.translate_data(bus, addr, AccessType::Load) {
                    Ok(pa) => pa,
                    Err(t) => return Some(BlockExecResult::Trap { trap: t, fault_pc: base.wrapping_add(pc_offset as u64) }),
                };
                match bus.read32(addr) {
                    Ok(v) => {
                        self.write_reg(rd as usize, (v as i32) as i64 as u64);
                        None
                    },
                    Err(t) => Some(BlockExecResult::Trap { trap: t, fault_pc: base.wrapping_add(pc_offset as u64) }),
                }
            },
            MicroOp::Lwu { rd, rs1, imm, pc_offset } => {
                let addr = self.regs[rs1 as usize].wrapping_add(imm as u64);
                let addr = match self.translate_data(bus, addr, AccessType::Load) {
                    Ok(pa) => pa,
                    Err(t) => return Some(BlockExecResult::Trap { trap: t, fault_pc: base.wrapping_add(pc_offset as u64) }),
                };
                match bus.read32(addr) {
                    Ok(v) => {
                        self.write_reg(rd as usize, v as u64);
                        None
                    },
                    Err(t) => Some(BlockExecResult::Trap { trap: t, fault_pc: base.wrapping_add(pc_offset as u64) }),
                }
            },
            MicroOp::Lh { rd, rs1, imm, pc_offset } => {
                let addr = self.regs[rs1 as usize].wrapping_add(imm as u64);
                let addr = match self.translate_data(bus, addr, AccessType::Load) {
                    Ok(pa) => pa,
                    Err(t) => return Some(BlockExecResult::Trap { trap: t, fault_pc: base.wrapping_add(pc_offset as u64) }),
                };
                match bus.read16(addr) {
                    Ok(v) => {
                        self.write_reg(rd as usize, (v as i16) as i64 as u64);
                        None
                    },
                    Err(t) => Some(BlockExecResult::Trap { trap: t, fault_pc: base.wrapping_add(pc_offset as u64) }),
                }
            },
            MicroOp::Lhu { rd, rs1, imm, pc_offset } => {
                let addr = self.regs[rs1 as usize].wrapping_add(imm as u64);
                let addr = match self.translate_data(bus, addr, AccessType::Load) {
                    Ok(pa) => pa,
                    Err(t) => return Some(BlockExecResult::Trap { trap: t, fault_pc: base.wrapping_add(pc_offset as u64) }),
                };
                match bus.read16(addr) {
                    Ok(v) => {
                        self.write_reg(rd as usize, v as u64);
                        None
                    },
                    Err(t) => Some(BlockExecResult::Trap { trap: t, fault_pc: base.wrapping_add(pc_offset as u64) }),
                }
            },
            MicroOp::Lb { rd, rs1, imm, pc_offset } => {
                let addr = self.regs[rs1 as usize].wrapping_add(imm as u64);
                let addr = match self.translate_data(bus, addr, AccessType::Load) {
                    Ok(pa) => pa,
                    Err(t) => return Some(BlockExecResult::Trap { trap: t, fault_pc: base.wrapping_add(pc_offset as u64) }),
                };
                match bus.read8(addr) {
                    Ok(v) => {
                        self.write_reg(rd as usize, (v as i8) as i64 as u64);
                        None
                    },
                    Err(t) => Some(BlockExecResult::Trap { trap: t, fault_pc: base.wrapping_add(pc_offset as u64) }),
                }
            },
            MicroOp::Lbu { rd, rs1, imm, pc_offset } => {
                let addr = self.regs[rs1 as usize].wrapping_add(imm as u64);
                let addr = match self.translate_data(bus, addr, AccessType::Load) {
                    Ok(pa) => pa,
                    Err(t) => return Some(BlockExecResult::Trap { trap: t, fault_pc: base.wrapping_add(pc_offset as u64) }),
                };
                match bus.read8(addr) {
                    Ok(v) => {
                        self.write_reg(rd as usize, v as u64);
                        None
                    },
                    Err(t) => Some(BlockExecResult::Trap { trap: t, fault_pc: base.wrapping_add(pc_offset as u64) }),
                }
            },
            MicroOp::Sd { rs1, rs2, imm, pc_offset } => {
                let addr = self.regs[rs1 as usize].wrapping_add(imm as u64);
                let x2 = self.regs[rs2 as usize];
                let pa = match self.translate_data(bus, addr, AccessType::Store) {
                    Ok(pa) => pa,
                    Err(t) => return Some(BlockExecResult::Trap { trap: t, fault_pc: base.wrapping_add(pc_offset as u64) }),
                };
                match bus.write64(pa, x2) {
                    Ok(_) => {
                        self.clear_reservation_if_conflict(addr);
                        None
                    },
                    Err(t) => Some(BlockExecResult::Trap { trap: t, fault_pc: base.wrapping_add(pc_offset as u64) }),
                }
            },
            MicroOp::Sw { rs1, rs2, imm, pc_offset } => {
                let addr = self.regs[rs1 as usize].wrapping_add(imm as u64);
                let x2 = self.regs[rs2 as usize];
                let pa = match self.translate_data(bus, addr, AccessType::Store) {
                    Ok(pa) => pa,
                    Err(t) => return Some(BlockExecResult::Trap { trap: t, fault_pc: base.wrapping_add(pc_offset as u64) }),
                };
                match bus.write32(pa, x2 as u32) {
                    Ok(_) => {
                        self.clear_reservation_if_conflict(addr);
                        None
                    },
                    Err(t) => Some(BlockExecResult::Trap { trap: t, fault_pc: base.wrapping_add(pc_offset as u64) }),
                }
            },
            MicroOp::Sh { rs1, rs2, imm, pc_offset } => {
                let addr = self.regs[rs1 as usize].wrapping_add(imm as u64);
                let x2 = self.regs[rs2 as usize];
                let pa = match self.translate_data(bus, addr, AccessType::Store) {
                    Ok(pa) => pa,
                    Err(t) => return Some(BlockExecResult::Trap { trap: t, fault_pc: base.wrapping_add(pc_offset as u64) }),
                };
                match bus.write16(pa, x2 as u16) {
                    Ok(_) => {
                        self.clear_reservation_if_conflict(addr);
                        None
                    },
                    Err(t) => Some(BlockExecResult::Trap { trap: t, fault_pc: base.wrapping_add(pc_offset as u64) }),
                }
            },
            MicroOp::Sb { rs1, rs2, imm, pc_offset } => {
                let addr = self.regs[rs1 as usize].wrapping_add(imm as u64);
                let x2 = self.regs[rs2 as usize];
                let pa = match self.translate_data(bus, addr, AccessType::Store) {
                    Ok(pa) => pa,
                    Err(t) => return Some(BlockExecResult::Trap { trap: t, fault_pc: base.wrapping_add(pc_offset as u64) }),
                };
                match bus.write8(pa, x2 as u8) {
                    Ok(_) => {
                        self.clear_reservation_if_conflict(addr);
                        None
                    },
                    Err(t) => Some(BlockExecResult::Trap { trap: t, fault_pc: base.wrapping_add(pc_offset as u64) }),
                }
            },
            MicroOp::Jal { rd, imm, pc_offset, insn_len } => {
                let pc = base.wrapping_add(pc_offset as u64);
                self.write_reg(rd as usize, pc.wrapping_add(insn_len as u64));
                Some(BlockExecResult::Continue(pc.wrapping_add(imm as u64)))
            },
            MicroOp::Jalr { rd, rs1, imm, pc_offset, insn_len } => {
                let pc = base.wrapping_add(pc_offset as u64);
                let target = self.regs[rs1 as usize].wrapping_add(imm as u64) & !1u64;
                self.write_reg(rd as usize, pc.wrapping_add(insn_len as u64));
                Some(BlockExecResult::Continue(target))
            },
            MicroOp::Beq { rs1, rs2, imm, pc_offset, insn_len } => {
                let (x1, x2) = (self.regs[rs1 as usize], self.regs[rs2 as usize]);
                let pc = base.wrapping_add(pc_offset as u64);
                Some(BlockExecResult::Continue(if x1 == x2 { pc.wrapping_add(imm as u64) } else { pc.wrapping_add(insn_len as u64) }))
            },
            MicroOp::Bne { rs1, rs2, imm, pc_offset, insn_len } => {
                let (x1, x2) = (self.regs[rs1 as usize], self.regs[rs2 as usize]);
                let pc = base.wrapping_add(pc_offset as u64);
                Some(BlockExecResult::Continue(if x1 != x2 { pc.wrapping_add(imm as u64) } else { pc.wrapping_add(insn_len as u64) }))
            },
            MicroOp::Blt { rs1, rs2, imm, pc_offset, insn_len } => {
                let (x1, x2) = (self.regs[rs1 as usize], self.regs[rs2 as usize]);
                let pc = base.wrapping_add(pc_offset as u64);
                Some(BlockExecResult::Continue(if (x1 as i64) < (x2 as i64) { pc.wrapping_add(imm as u64) } else { pc.wrapping_add(insn_len as u64) }))
            },
            MicroOp::Bge { rs1, rs2, imm, pc_offset, insn_len } => {
                let (x1, x2) = (self.regs[rs1 as usize], self.regs[rs2 as usize]);
                let pc = base.wrapping_add(pc_offset as u64);
                Some(BlockExecResult::Continue(if (x1 as i64) >= (x2 as i64) { pc.wrapping_add(imm as u64) } else { pc.wrapping_add(insn_len as u64) }))
            },
            MicroOp::Bltu { rs1, rs2, imm, pc_offset, insn_len } => {
                let (x1, x2) = (self.regs[rs1 as usize], self.regs[rs2 as usize]);
                let pc = base.wrapping_add(pc_offset as u64);
                Some(BlockExecResult::Continue(if x1 < x2 { pc.wrapping_add(imm as u64) } else { pc.wrapping_add(insn_len as u64) }))
            },
            MicroOp::Bgeu { rs1, rs2, imm, pc_offset, insn_len } => {
                let (x1, x2) = (self.regs[rs1 as usize], self.regs[rs2 as usize]);
                let pc = base.wrapping_add(pc_offset as u64);
                Some(BlockExecResult::Continue(if x1 >= x2 { pc.wrapping_add(imm as u64) } else { pc.wrapping_add(insn_len as u64) }))
            },
            MicroOp::Ecall { pc_offset } => Some(BlockExecResult::Exit { next_pc: base.wrapping_add(pc_offset as u64) }),
            MicroOp::Ebreak { pc_offset } => Some(BlockExecResult::Exit { next_pc: base.wrapping_add(pc_offset as u64) }),
            MicroOp::Mret { pc_offset } => Some(BlockExecResult::Exit { next_pc: base.wrapping_add(pc_offset as u64) }),
            MicroOp::Sret { pc_offset } => Some(BlockExecResult::Exit { next_pc: base.wrapping_add(pc_offset as u64) }),
            MicroOp::SfenceVma { pc_offset } => Some(BlockExecResult::Exit { next_pc: base.wrapping_add(pc_offset as u64) }),
            MicroOp::Csr { pc_offset } => Some(BlockExecResult::Exit { next_pc: base.wrapping_add(pc_offset as u64) }),
            MicroOp::LoadReserved { pc_offset } => Some(BlockExecResult::Exit { next_pc: base.wrapping_add(pc_offset as u64) }),
            MicroOp::StoreConditional { pc_offset } => Some(BlockExecResult::Exit { next_pc: base.wrapping_add(pc_offset as u64) }),
            MicroOp::Amo { pc_offset } => Some(BlockExecResult::Exit { next_pc: base.wrapping_add(pc_offset as u64) }),
            // WFI inside a block only pauses; FENCE orders nothing in this memory model.
            MicroOp::Wfi { .. } => None,
            MicroOp::Fence => None,
            _ => None,
        }
    }

    /// Run a decoded block on this hart, loads and stores going through
    /// address translation: each operation in turn, until a jump or branch
    /// gives the next PC, a load or store traps, in translation or on
    /// the bus (with the faulting instruction's PC), or a system instruction hands over to the
    /// interpreter; past the last operation execution continues after the
    /// block's bytes.
    pub fn execute_block<B: Bus>(&mut self, block: &Block, bus: &mut B) -> (r: BlockExecResult)
        requires
            old(bus).inv(),
            block_wf(*block),
        ensures
            final(bus).inv(),
            (r, final(self)@, final(bus).state()) == exec_block_spec::<B>(old(self)@, *block, old(bus).state()),
    {
        let base = block.start_pc;
        let n = block.ops.len();
        let mut idx: usize = 0;
        while idx < n
            invariant
                n == block.ops@.len(),
                idx <= n,
                base == block.start_pc,
                bus.inv(),
                block_wf(*block),
                run_ops::<B>(self@, base, block.byte_len, block.ops@, idx as nat, bus.state())
                    == exec_block_spec::<B>(old(self)@, *block, old(bus).state()),
            decreases n - idx,
        {
            let op = block.ops[idx];
            proof {
                assert(op_wf(block.ops@[idx as int]));
            }
            idx = idx + 1;
            if let Some(r) = self.exec_op(base, op, bus) {
                return r;
            }
        }
        BlockExecResult::Continue(base.wrapping_add(block.byte_len as u64))
    }
}


proof fn lemma_step_keeps_x0<B: Bus>(c: CpuView, base: u64, op: MicroOp, s: B::State)
    requires
        op_wf(op),
        c.regs.len() == 32,
        c.regs[0] == 0,
    ensures
        op_step::<B>(c, base, op, s).1.regs.len() == 32,
        op_step::<B>(c, base, op, s).1.regs[0] == 0,
{
    assert forall|rd: u8, v: u64| #![trigger set_reg(c, rd, v)] rd < 32 implies set_reg(c, rd, v).regs.len() == 32 && set_reg(c, rd, v).regs[0] == 0 by {
        if rd != 0 {
            assert(set_reg(c, rd, v).regs[0] == c.regs[0]);
        }
    }
    assert forall|a: u64| #![trigger after_store(c, a)] after_store(c, a).regs == c.regs by {}
}

proof fn lemma_run_keeps_x0<B: Bus>(c: CpuView, base: u64, byte_len: u32, ops: Seq<MicroOp>, i: nat, s: B::State)
    requires
        forall|k: int| 0 <= k < ops.len() ==> op_wf(#[trigger] ops[k]),
        c.regs.len() == 32,
        c.regs[0] == 0,
    ensures
        run_ops::<B>(c, base, byte_len, ops, i, s).1.regs.len() == 32,
        run_ops::<B>(c, base, byte_len, ops, i, s).1.regs[0] == 0,
    decreases ops.len() - i,
{
    if i < ops.len() {
        let (r, c1, s1) = op_step::<B>(c, base, ops[i as int], s);
        lemma_step_keeps_x0::<B>(c, base, ops[i as int], s);
        if r is None {
            lemma_run_keeps_x0::<B>(c1, base, byte_len, ops, i + 1, s1);
        }
    }
}

/// Running a block never writes x0: it reads zero before and after.
pub proof fn lemma_block_keeps_x0<B: Bus>(c: CpuView, block: Block, s: B::State)
    requires
        block_wf(block),
        c.regs.len() == 32,
        c.regs[0] == 0,
    ensures
        exec_block_spec::<B>(c, block, s).1.regs[0] == 0,
{
    lemma_run_keeps_x0::<B>(c, block.start_pc, block.byte_len, block.ops@, 0, s);
}

proof fn lemma_run_register_ops<B: Bus>(c: CpuView, base: u64, byte_len: u32, ops: Seq<MicroOp>, i: nat, s: B::State)
    requires
        forall|k: int, c2: CpuView| 0 <= k < ops.len() ==> (#[trigger] alu_spec(ops[k], c2, base)) is Some,
    ensures
        run_ops::<B>(c, base, byte_len, ops, i, s).0
            == BlockExecResult::Continue(vstd::wrapping::u64_specs::wrapping_add(base, byte_len as u64)),
        run_ops::<B>(c, base, byte_len, ops, i, s).2 == s,
        run_ops::<B>(c, base, byte_len, ops, i, s).1.pc == c.pc,
        run_ops::<B>(c, base, byte_len, ops, i, s).1.csrs == c.csrs,
        run_ops::<B>(c, base, byte_len, ops, i, s).1.mode == c.mode,
        run_ops::<B>(c, base, byte_len, ops, i, s).1.reservation == c.reservation,
        run_ops::<B>(c, base, byte_len, ops, i, s).1.fregs == c.fregs,
    decreases ops.len() - i,
{
    if i < ops.len() {
        assert(alu_spec(ops[i as int], c, base) is Some);
        let c1 = op_step::<B>(c, base, ops[i as int], s).1;
        lemma_run_register_ops::<B>(c1, base, byte_len, ops, i + 1, s);
    }
}

/// A block made only of register operations never touches the bus: it runs
/// to its end and keeps the pc, CSRs, privilege mode, reservation and FP
/// registers.
pub proof fn lemma_register_block_keeps_bus<B: Bus>(c: CpuView, block: Block, s: B::State)
    requires
        forall|k: int, c2: CpuView| 0 <= k < block.ops@.len() ==> (#[trigger] alu_spec(block.ops@[k], c2, block.start_pc)) is Some,
    ensures
        exec_block_spec::<B>(c, block, s).0
            == BlockExecResult::Continue(vstd::wrapping::u64_specs::wrapping_add(block.start_pc, block.byte_len as u64)),
        exec_block_spec::<B>(c, block, s).2 == s,
        exec_block_spec::<B>(c, block, s).1.pc == c.pc,
        exec_block_spec::<B>(c, block, s).1.csrs == c.csrs,
        exec_block_spec::<B>(c, block, s).1.mode == c.mode,
        exec_block_spec::<B>(c, block, s).1.reservation == c.reservation,
        exec_block_spec::<B>(c, block, s).1.fregs == c.fregs,
{
    lemma_run_register_ops::<B>(c, block.start_pc, block.byte_len, block.ops@, 0, s);
}

/// SRA and SRAI shift right arithmetically: the result is the logical right
/// shift of the source with every vacated top bit equal to the source's sign
/// bit (for SRA the amount is the low six bits of `rs2`). No other register,
/// and not the bus, changes.
#[verifier::spinoff_prover]
pub proof fn lemma_sra_fills_with_sign<B: Bus>(c: CpuView, base: u64, rd: u8, rs1: u8, rs2: u8, shamt: u32, s: B::State)
    requires
        rd != 0,
        rd < 32,
        rs1 < 32,
        rs2 < 32,
        shamt < 64,
        c.regs.len() == 32,
    ensures
        ({
            let x = c.regs[rs1 as int];
            let n = (c.regs[rs2 as int] % 64) as u64;
            let k = shamt as u64;
            let (r1, c1, s1) = op_step::<B>(c, base, MicroOp::Sra { rd, rs1, rs2 }, s);
            let (r2, c2, s2) = op_step::<B>(c, base, MicroOp::Srai { rd, rs1, shamt }, s);
            &&& r1 is None && s1 == s && r2 is None && s2 == s
            &&& c1.regs[rd as int] == if x < 0x8000_0000_0000_0000u64 { x >> n }
                else { (x >> n) | !(0xFFFF_FFFF_FFFF_FFFFu64 >> n) }
            &&& c2.regs[rd as int] == if x < 0x8000_0000_0000_0000u64 { x >> k }
                else { (x >> k) | !(0xFFFF_FFFF_FFFF_FFFFu64 >> k) }
            &&& forall|j: int| 0 <= j < 32 && j != rd ==> c1.regs[j] == c.regs[j] && c2.regs[j] == c.regs[j]
        }),
{
    let x = c.regs[rs1 as int];
    let y = c.regs[rs2 as int];
    lemma_shift_masks(y);
    crate::bits::lemma_bit_facts(x, y & 0x3F, shamt, y, 0, 0, 0, 0, 0, 0, 0, 0, 0, 0, 0, 0, 0, 0);
}

proof fn lemma_order_of(x1: u64, x2: u64)
    ensures
        ((x1 as i64) < (x2 as i64)) == if (x1 >= 0x8000_0000_0000_0000u64) == (x2 >= 0x8000_0000_0000_0000u64) { x1 < x2 }
            else { x1 >= 0x8000_0000_0000_0000u64 },
{
    crate::bits::lemma_bit_facts(0, 0, 0, 0, 0, 0, 0, 0, 0, x1, x2, 0, 0, 0, 0, 0, 0, 0);
}

#[verifier::spinoff_prover]
proof fn lemma_set_less_than<B: Bus>(c: CpuView, base: u64, rd: u8, rs1: u8, rs2: u8, s: B::State)
    requires
        rd != 0,
        rd < 32,
        rs1 < 32,
        rs2 < 32,
        c.regs.len() == 32,
    ensures
        ({
            let x1 = c.regs[rs1 as int];
            let x2 = c.regs[rs2 as int];
            let lt = if (x1 >= 0x8000_0000_0000_0000u64) == (x2 >= 0x8000_0000_0000_0000u64) { x1 < x2 }
                else { x1 >= 0x8000_0000_0000_0000u64 };
            &&& op_step::<B>(c, base, MicroOp::Slt { rd, rs1, rs2 }, s).1.regs[rd as int] == if lt { 1u64 } else { 0u64 }
            &&& op_step::<B>(c, base, MicroOp::Sltu { rd, rs1, rs2 }, s).1.regs[rd as int] == if x1 < x2 { 1u64 } else { 0u64 }
        }),
{
    lemma_order_of(c.regs[rs1 as int], c.regs[rs2 as int]);
}

#[verifier::spinoff_prover]
proof fn lemma_branch_order<B: Bus>(c: CpuView, base: u64, rs1: u8, rs2: u8, imm: i64, pc_offset: u32, insn_len: u8, s: B::State)
    requires
        rs1 < 32,
        rs2 < 32,
        c.regs.len() == 32,
    ensures
        ({
            let x1 = c.regs[rs1 as int];
            let x2 = c.regs[rs2 as int];
            let lt = if (x1 >= 0x8000_0000_0000_0000u64) == (x2 >= 0x8000_0000_0000_0000u64) { x1 < x2 }
                else { x1 >= 0x8000_0000_0000_0000u64 };
            let pc = vstd::wrapping::u64_specs::wrapping_add(base, pc_offset as u64);
            let taken = BlockExecResult::Continue(vstd::wrapping::u64_specs::wrapping_add(pc, imm as u64));
            let next = BlockExecResult::Continue(vstd::wrapping::u64_specs::wrapping_add(pc, insn_len as u64));
            &&& op_step::<B>(c, base, MicroOp::Blt { rs1, rs2, imm, pc_offset, insn_len }, s).0 == Some(if lt { taken } else { next })
            &&& op_step::<B>(c, base, MicroOp::Bge { rs1, rs2, imm, pc_offset, insn_len }, s).0 == Some(if lt { next } else { taken })
            &&& op_step::<B>(c, base, MicroOp::Bltu { rs1, rs2, imm, pc_offset, insn_len }, s).0 == Some(if x1 < x2 { taken } else { next })
            &&& op_step::<B>(c, base, MicroOp::Bgeu { rs1, rs2, imm, pc_offset, insn_len }, s).0 == Some(if x1 < x2 { next } else { taken })
        }),
{
    lemma_order_of(c.regs[rs1 as int], c.regs[rs2 as int]);
}

/// SLT, BLT and BGE order registers as signed values, SLTU, BLTU and BGEU as
/// unsigned ones: two values with the same sign bit are ordered alike by
/// both; otherwise the one with the sign bit set is the smaller signed value
/// (and the larger unsigned one). A branch taken goes to `pc + imm`, else to
/// the next instruction.
pub proof fn lemma_signed_and_unsigned_order<B: Bus>(
    c: CpuView, base: u64, rd: u8, rs1: u8, rs2: u8, imm: i64, pc_offset: u32, insn_len: u8, s: B::State,
)
    requires
        rd != 0,
        rd < 32,
        rs1 < 32,
        rs2 < 32,
        c.regs.len() == 32,
    ensures
        ({
            let x1 = c.regs[rs1 as int];
            let x2 = c.regs[rs2 as int];
            let neg1 = x1 >= 0x8000_0000_0000_0000u64;
            let neg2 = x2 >= 0x8000_0000_0000_0000u64;
            let lt = if neg1 == neg2 { x1 < x2 } else { neg1 };
            let pc = vstd::wrapping::u64_specs::wrapping_add(base, pc_offset as u64);
            let taken = BlockExecResult::Continue(vstd::wrapping::u64_specs::wrapping_add(pc, imm as u64));
            let next = BlockExecResult::Continue(vstd::wrapping::u64_specs::wrapping_add(pc, insn_len as u64));
            &&& op_step::<B>(c, base, MicroOp::Slt { rd, rs1, rs2 }, s).1.regs[rd as int] == if lt { 1u64 } else { 0u64 }
            &&& op_step::<B>(c, base, MicroOp::Sltu { rd, rs1, rs2 }, s).1.regs[rd as int] == if x1 < x2 { 1u64 } else { 0u64 }
            &&& op_step::<B>(c, base, MicroOp::Blt { rs1, rs2, imm, pc_offset, insn_len }, s).0 == Some(if lt { taken } else { next })
            &&& op_step::<B>(c, base, MicroOp::Bge { rs1, rs2, imm, pc_offset, insn_len }, s).0 == Some(if lt { next } else { taken })
            &&& op_step::<B>(c, base, MicroOp::Bltu { rs1, rs2, imm, pc_offset, insn_len }, s).0 == Some(if x1 < x2 { taken } else { next })
            &&& op_step::<B>(c, base, MicroOp::Bgeu { rs1, rs2, imm, pc_offset, insn_len }, s).0 == Some(if x1 < x2 { next } else { taken })
        }),
{
    lemma_set_less_than::<B>(c, base, rd, rs1, rs2, s);
    lemma_branch_order::<B>(c, base, rs1, rs2, imm, pc_offset, insn_len, s);
}

/// JALR jumps to `x[rs1] + imm` with bit 0 cleared, and links the address of
/// the next instruction in `rd`.
#[verifier::spinoff_prover]
pub proof fn lemma_jalr_target<B: Bus>(c: CpuView, base: u64, rd: u8, rs1: u8, imm: i64, pc_offset: u32, insn_len: u8, s: B::State)
    requires
        rd != 0,
        rd < 32,
        rs1 < 32,
        c.regs.len() == 32,
    ensures
        ({
            let sum = vstd::wrapping::u64_specs::wrapping_add(c.regs[rs1 as int], imm as u64);
            let (r, c1, s1) = op_step::<B>(c, base, MicroOp::Jalr { rd, rs1, imm, pc_offset, insn_len }, s);
            let pc = vstd::wrapping::u64_specs::wrapping_add(base, pc_offset as u64);
            &&& r matches Some(BlockExecResult::Continue(t)) && t & 1 == 0 && (t | (sum & 1)) == sum
            &&& c1.regs[rd as int] == vstd::wrapping::u64_specs::wrapping_add(pc, insn_len as u64)
            &&& s1 == s
        }),
{
    let sum = vstd::wrapping::u64_specs::wrapping_add(c.regs[rs1 as int], imm as u64);
    crate::bits::lemma_bit_facts(0, 0, 0, 0, 0, 0, 0, 0, 0, 0, 0, sum, 0, 0, 0, 0, 0, 0);
}

/// Truncating division as RISC-V defines DIV and REM: for a nonzero divisor,
/// quotient times divisor plus remainder gives the dividend, the remainder
/// is smaller than the divisor in magnitude, and it is zero or has the
/// dividend's sign (so the quotient rounds toward zero).
pub proof fn lemma_truncating_division(a: int, b: int)
    requires
        b != 0,
    ensures
        trunc_div(a, b) * b + trunc_rem(a, b) == a,
        vstd::math::abs(trunc_rem(a, b)) < vstd::math::abs(b),
        trunc_rem(a, b) == 0 || ((trunc_rem(a, b) < 0) == (a < 0)),
{
    let x = vstd::math::abs(a) as int;
    let d = vstd::math::abs(b) as int;
    vstd::arithmetic::div_mod::lemma_fundamental_div_mod(x, d);
    vstd::arithmetic::div_mod::lemma_mod_pos_bound(x, d);
    let q = x / d;
    let r = x % d;
    assert(x == d * q + r);
    if (a < 0) != (b < 0) {
        if b < 0 {
            assert((-q) * b == q * d) by (nonlinear_arith) requires d == -b;
        } else {
            assert((-q) * b == -(q * d)) by (nonlinear_arith) requires d == b;
        }
    } else {
        if b < 0 {
            assert(q * b == -(q * d)) by (nonlinear_arith) requires d == -b;
        } else {
            assert(q * b == q * d) by (nonlinear_arith) requires d == b;
        }
    }
}

/// The word operations work on the low 32 bits and sign-extend the 32-bit
/// result: ADDW gives the low word of the sum, extended from its bit 31;
/// SRAIW and SRAW shift the low word right arithmetically (by `shamt`, or by
/// the low five bits of `rs2`), filling with its bit 31 up to bit 63.
#[verifier::spinoff_prover]
pub proof fn lemma_word_ops_sign_extend<B: Bus>(c: CpuView, base: u64, rd: u8, rs1: u8, rs2: u8, shamt: u32, s: B::State)
    requires
        rd != 0,
        rd < 32,
        rs1 < 32,
        rs2 < 32,
        shamt < 32,
        c.regs.len() == 32,
    ensures
        ({
            let x1 = c.regs[rs1 as int];
            let x2 = c.regs[rs2 as int];
            let sum = vstd::wrapping::u64_specs::wrapping_add(x1, x2);
            let lo = x1 as u32;
            let neg = lo >= 0x8000_0000u32;
            let n = (x2 % 32) as u32;
            &&& op_step::<B>(c, base, MicroOp::Addw { rd, rs1, rs2 }, s).1.regs[rd as int]
                == if (sum as u32) < 0x8000_0000u32 { (sum as u32) as u64 } else { ((sum as u32) as u64) | 0xFFFF_FFFF_0000_0000u64 }
            &&& op_step::<B>(c, base, MicroOp::Sraiw { rd, rs1, shamt }, s).1.regs[rd as int]
                == if !neg { (lo >> shamt) as u64 } else { ((lo >> shamt) as u64) | !(0xFFFF_FFFFu64 >> (shamt as u64)) }
            &&& op_step::<B>(c, base, MicroOp::Sraw { rd, rs1, rs2 }, s).1.regs[rd as int]
                == if !neg { (lo >> n) as u64 } else { ((lo >> n) as u64) | !(0xFFFF_FFFFu64 >> (n as u64)) }
        }),
{
    let x1 = c.regs[rs1 as int];
    let x2 = c.regs[rs2 as int];
    let sum = vstd::wrapping::u64_specs::wrapping_add(x1, x2);
    lemma_shift_masks(x2);
    crate::bits::lemma_bit_facts(0, 0, 0, x2, 0, 0, 0, 0, 0, 0, 0, 0, 0, 0, sum, shamt, 0, 0);
    crate::bits::lemma_bit_facts(0, 0, 0, x2, 0, 0, 0, 0, 0, 0, 0, 0, 0, 0, x1, shamt, x2 & 0x1F, 0);
}

#[verifier::spinoff_prover]
proof fn lemma_load_byte<B: Bus>(c: CpuView, base: u64, rd: u8, rs1: u8, imm: i64, pc_offset: u32, s: B::State)
    requires
        rd != 0,
        rd < 32,
        rs1 < 32,
        c.regs.len() == 32,
    ensures
        match load_via::<B>(c, s, ea(c, rs1, imm), 1) {
            (Ok(v), _) => {
                &&& op_step::<B>(c, base, MicroOp::Lbu { rd, rs1, imm, pc_offset }, s).1.regs[rd as int] == (v as u8) as u64
                &&& op_step::<B>(c, base, MicroOp::Lb { rd, rs1, imm, pc_offset }, s).1.regs[rd as int]
                    == if (v as u8) < 0x80u8 { (v as u8) as u64 } else { ((v as u8) as u64) | 0xFFFF_FFFF_FFFF_FF00u64 }
            },
            (Err(t), _) => op_step::<B>(c, base, MicroOp::Lb { rd, rs1, imm, pc_offset }, s).0
                == Some(BlockExecResult::Trap { trap: t, fault_pc: op_pc(base, pc_offset) })
                && op_step::<B>(c, base, MicroOp::Lb { rd, rs1, imm, pc_offset }, s).1 == c,
        },
{
    if let (Ok(v), _) = load_via::<B>(c, s, ea(c, rs1, imm), 1) {
        crate::bits::lemma_bit_facts(0, 0, 0, 0, 0, 0, 0, 0, 0, 0, 0, 0, 0, 0, 0, 0, 0, v);
    }
}

#[verifier::spinoff_prover]
proof fn lemma_load_half<B: Bus>(c: CpuView, base: u64, rd: u8, rs1: u8, imm: i64, pc_offset: u32, s: B::State)
    requires
        rd != 0,
        rd < 32,
        rs1 < 32,
        c.regs.len() == 32,
    ensures
        match load_via::<B>(c, s, ea(c, rs1, imm), 2) {
            (Ok(v), _) => {
                &&& op_step::<B>(c, base, MicroOp::Lhu { rd, rs1, imm, pc_offset }, s).1.regs[rd as int] == (v as u16) as u64
                &&& op_step::<B>(c, base, MicroOp::Lh { rd, rs1, imm, pc_offset }, s).1.regs[rd as int]
                    == if (v as u16) < 0x8000u16 { (v as u16) as u64 } else { ((v as u16) as u64) | 0xFFFF_FFFF_FFFF_0000u64 }
            },
            (Err(t), _) => op_step::<B>(c, base, MicroOp::Lh { rd, rs1, imm, pc_offset }, s).0
                == Some(BlockExecResult::Trap { trap: t, fault_pc: op_pc(base, pc_offset) })
                && op_step::<B>(c, base, MicroOp::Lh { rd, rs1, imm, pc_offset }, s).1 == c,
        },
{
    if let (Ok(v), _) = load_via::<B>(c, s, ea(c, rs1, imm), 2) {
        crate::bits::lemma_bit_facts(0, 0, 0, 0, 0, 0, 0, 0, 0, 0, 0, 0, 0, 0, 0, 0, 0, v);
    }
}

#[verifier::spinoff_prover]
proof fn lemma_load_word<B: Bus>(c: CpuView, base: u64, rd: u8, rs1: u8, imm: i64, pc_offset: u32, s: B::State)
    requires
        rd != 0,
        rd < 32,
        rs1 < 32,
        c.regs.len() == 32,
    ensures
        match load_via::<B>(c, s, ea(c, rs1, imm), 4) {
            (Ok(v), _) => {
                &&& op_step::<B>(c, base, MicroOp::Lwu { rd, rs1, imm, pc_offset }, s).1.regs[rd as int] == (v as u32) as u64
                &&& op_step::<B>(c, base, MicroOp::Lw { rd, rs1, imm, pc_offset }, s).1.regs[rd as int]
                    == if (v as u32) < 0x8000_0000u32 { (v as u32) as u64 } else { ((v as u32) as u64) | 0xFFFF_FFFF_0000_0000u64 }
            },
            (Err(t), _) => op_step::<B>(c, base, MicroOp::Lw { rd, rs1, imm, pc_offset }, s).0
                == Some(BlockExecResult::Trap { trap: t, fault_pc: op_pc(base, pc_offset) })
                && op_step::<B>(c, base, MicroOp::Lw { rd, rs1, imm, pc_offset }, s).1 == c,
        },
{
    if let (Ok(v), _) = load_via::<B>(c, s, ea(c, rs1, imm), 4) {
        crate::bits::lemma_bit_facts(0, 0, 0, 0, 0, 0, 0, 0, 0, 0, 0, 0, 0, 0, 0, 0, 0, v);
    }
}

/// LB, LH and LW sign-extend the loaded byte, half or word from its top bit;
/// LBU, LHU and LWU zero-extend it. A failed access traps at the
/// instruction and leaves the hart as it was.
pub proof fn lemma_load_extension<B: Bus>(c: CpuView, base: u64, rd: u8, rs1: u8, imm: i64, pc_offset: u32, s: B::State)
    requires
        rd != 0,
        rd < 32,
        rs1 < 32,
        c.regs.len() == 32,
    ensures
        ({
            let a = ea(c, rs1, imm);
            let pc = vstd::wrapping::u64_specs::wrapping_add(base, pc_offset as u64);
            &&& match load_via::<B>(c, s, a, 1) {
                (Ok(v), _) => {
                    &&& op_step::<B>(c, base, MicroOp::Lbu { rd, rs1, imm, pc_offset }, s).1.regs[rd as int] == (v as u8) as u64
                    &&& op_step::<B>(c, base, MicroOp::Lb { rd, rs1, imm, pc_offset }, s).1.regs[rd as int]
                        == if (v as u8) < 0x80u8 { (v as u8) as u64 } else { ((v as u8) as u64) | 0xFFFF_FFFF_FFFF_FF00u64 }
                },
                (Err(t), _) => op_step::<B>(c, base, MicroOp::Lb { rd, rs1, imm, pc_offset }, s).0
                    == Some(BlockExecResult::Trap { trap: t, fault_pc: pc })
                    && op_step::<B>(c, base, MicroOp::Lb { rd, rs1, imm, pc_offset }, s).1 == c,
            }
            &&& match load_via::<B>(c, s, a, 2) {
                (Ok(v), _) => {
                    &&& op_step::<B>(c, base, MicroOp::Lhu { rd, rs1, imm, pc_offset }, s).1.regs[rd as int] == (v as u16) as u64
                    &&& op_step::<B>(c, base, MicroOp::Lh { rd, rs1, imm, pc_offset }, s).1.regs[rd as int]
                        == if (v as u16) < 0x8000u16 { (v as u16) as u64 } else { ((v as u16) as u64) | 0xFFFF_FFFF_FFFF_0000u64 }
                },
                (Err(t), _) => op_step::<B>(c, base, MicroOp::Lh { rd, rs1, imm, pc_offset }, s).0
                    == Some(BlockExecResult::Trap { trap: t, fault_pc: pc })
                    && op_step::<B>(c, base, MicroOp::Lh { rd, rs1, imm, pc_offset }, s).1 == c,
            }
            &&& match load_via::<B>(c, s, a, 4) {
                (Ok(v), _) => {
                    &&& op_step::<B>(c, base, MicroOp::Lwu { rd, rs1, imm, pc_offset }, s).1.regs[rd as int] == (v as u32) as u64
                    &&& op_step::<B>(c, base, MicroOp::Lw { rd, rs1, imm, pc_offset }, s).1.regs[rd as int]
                        == if (v as u32) < 0x8000_0000u32 { (v as u32) as u64 } else { ((v as u32) as u64) | 0xFFFF_FFFF_0000_0000u64 }
                },
                (Err(t), _) => op_step::<B>(c, base, MicroOp::Lw { rd, rs1, imm, pc_offset }, s).0
                    == Some(BlockExecResult::Trap { trap: t, fault_pc: pc })
                    && op_step::<B>(c, base, MicroOp::Lw { rd, rs1, imm, pc_offset }, s).1 == c,
            }
        }),
{
    lemma_load_byte::<B>(c, base, rd, rs1, imm, pc_offset, s);
    lemma_load_half::<B>(c, base, rd, rs1, imm, pc_offset, s);
    lemma_load_word::<B>(c, base, rd, rs1, imm, pc_offset, s);
}

/// Division by zero does not trap: DIV and DIVU give all ones, REM and REMU
/// give the dividend.
pub proof fn lemma_divide_by_zero(a: u64)
    ensures
        div_spec(a, 0) == u64::MAX,
        divu_spec(a, 0) == u64::MAX,
        rem_spec(a, 0) == a,
        remu_spec(a, 0) == a,
{
    assert((-1i64) as u64 == u64::MAX) by (bit_vector);
    assert(((a as i64) as u64) == a) by (bit_vector);
}

} // verus!
