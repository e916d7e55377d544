//! Minimal RISC-V (RV64IMA_Zicsr) assembler for benchmark workloads and
//! differential tests: raw 32-bit instruction encoders, and a two-pass
//! assembler with labels and a literal pool.

use vstd::prelude::*;

/// Branch funct3 codes for `Asm::branch`.
pub mod bcond;

verus! {

// ============================================================================
// Raw encoders
// ============================================================================

/// R-type instruction word.
pub open spec fn r_word(opcode: u32, rd: u32, funct3: u32, rs1: u32, rs2: u32, funct7: u32) -> u32 {
    (funct7 << 25u32) | (rs2 << 20u32) | (rs1 << 15u32) | (funct3 << 12u32) | (rd << 7u32) | opcode
}

/// I-type instruction word (12-bit immediate taken from the low bits of `imm`).
pub open spec fn i_word(opcode: u32, rd: u32, funct3: u32, rs1: u32, imm: i32) -> u32 {
    (((imm as u32) & 0xFFF) << 20u32) | (rs1 << 15u32) | (funct3 << 12u32) | (rd << 7u32) | opcode
}

/// S-type instruction word.
pub open spec fn s_word(opcode: u32, funct3: u32, rs1: u32, rs2: u32, imm: i32) -> u32 {
    let u = imm as u32;
    (((u >> 5u32) & 0x7F) << 25u32) | (rs2 << 20u32) | (rs1 << 15u32) | (funct3 << 12u32)
        | ((u & 0x1F) << 7u32) | opcode
}

/// B-type instruction word for a byte offset.
pub open spec fn b_word(opcode: u32, funct3: u32, rs1: u32, rs2: u32, offset: i32) -> u32 {
    let u = offset as u32;
    (((u >> 12u32) & 1) << 31u32) | (((u >> 5u32) & 0x3F) << 25u32) | (rs2 << 20u32) | (rs1 << 15u32)
        | (funct3 << 12u32) | (((u >> 1u32) & 0xF) << 8u32) | (((u >> 11u32) & 1) << 7u32) | opcode
}

/// U-type instruction word.
pub open spec fn u_word(opcode: u32, rd: u32, imm31_12: u32) -> u32 {
    (imm31_12 << 12u32) | (rd << 7u32) | opcode
}

/// J-type instruction word for a byte offset.
pub open spec fn j_word(opcode: u32, rd: u32, offset: i32) -> u32 {
    let u = offset as u32;
    (((u >> 20u32) & 1) << 31u32) | (((u >> 1u32) & 0x3FF) << 21u32) | (((u >> 11u32) & 1) << 20u32)
        | (((u >> 12u32) & 0xFF) << 12u32) | (rd << 7u32) | opcode
}

pub fn r_type(opcode: u32, rd: u32, funct3: u32, rs1: u32, rs2: u32, funct7: u32) -> (r: u32)
    ensures
        r == r_word(opcode, rd, funct3, rs1, rs2, funct7),
{
    (funct7 << 25) | (rs2 << 20) | (rs1 << 15) | (funct3 << 12) | (rd << 7) | opcode
}

pub fn i_type(opcode: u32, rd: u32, funct3: u32, rs1: u32, imm: i32) -> (r: u32)
    ensures
        r == i_word(opcode, rd, funct3, rs1, imm),
{
    let imm = (imm as u32) & 0xFFF;
    (imm << 20) | (rs1 << 15) | (funct3 << 12) | (rd << 7) | opcode
}

pub fn s_type(opcode: u32, funct3: u32, rs1: u32, rs2: u32, imm: i32) -> (r: u32)
    ensures
        r == s_word(opcode, funct3, rs1, rs2, imm),
{
    let imm = imm as u32;
    let imm_11_5 = (imm >> 5) & 0x7F;
    let imm_4_0 = imm & 0x1F;
    (imm_11_5 << 25) | (rs2 << 20) | (rs1 << 15) | (funct3 << 12) | (imm_4_0 << 7) | opcode
}

pub fn b_type(opcode: u32, funct3: u32, rs1: u32, rs2: u32, offset: i32) -> (r: u32)
    ensures
        r == b_word(opcode, funct3, rs1, rs2, offset),
{
    let imm = offset as u32;
    let bit12 = (imm >> 12) & 1;
    let bits10_5 = (imm >> 5) & 0x3F;
    let bits4_1 = (imm >> 1) & 0xF;
    let bit11 = (imm >> 11) & 1;
    (bit12 << 31) | (bits10_5 << 25) | (rs2 << 20) | (rs1 << 15) | (funct3 << 12) | (bits4_1 << 8)
        | (bit11 << 7) | opcode
}

pub fn u_type(opcode: u32, rd: u32, imm31_12: u32) -> (r: u32)
    ensures
        r == u_word(opcode, rd, imm31_12),
{
    (imm31_12 << 12) | (rd << 7) | opcode
}

pub fn j_type(opcode: u32, rd: u32, offset: i32) -> (r: u32)
    ensures
        r == j_word(opcode, rd, offset),
{
    let imm = offset as u32;
    let bit20 = (imm >> 20) & 1;
    let bits10_1 = (imm >> 1) & 0x3FF;
    let bit11 = (imm >> 11) & 1;
    let bits19_12 = (imm >> 12) & 0xFF;
    (bit20 << 31) | (bits10_1 << 21) | (bit11 << 20) | (bits19_12 << 12) | (rd << 7) | opcode
}

// ============================================================================
// Named instruction helpers
// ============================================================================

pub fn addi(rd: u32, rs1: u32, imm: i32) -> (r: u32)
    ensures
        r == i_word(0x13, rd, 0, rs1, imm),
{
    i_type(0x13, rd, 0, rs1, imm)
}

pub fn addiw(rd: u32, rs1: u32, imm: i32) -> (r: u32)
    ensures
        r == i_word(0x1B, rd, 0, rs1, imm),
{
    i_type(0x1B, rd, 0, rs1, imm)
}

pub fn andi(rd: u32, rs1: u32, imm: i32) -> (r: u32)
    ensures
        r == i_word(0x13, rd, 7, rs1, imm),
{
    i_type(0x13, rd, 7, rs1, imm)
}

pub fn ori(rd: u32, rs1: u32, imm: i32) -> (r: u32)
    ensures
        r == i_word(0x13, rd, 6, rs1, imm),
{
    i_type(0x13, rd, 6, rs1, imm)
}

pub fn xori(rd: u32, rs1: u32, imm: i32) -> (r: u32)
    ensures
        r == i_word(0x13, rd, 4, rs1, imm),
{
    i_type(0x13, rd, 4, rs1, imm)
}

pub fn lb(rd: u32, rs1: u32, imm: i32) -> (r: u32)
    ensures
        r == i_word(0x03, rd, 0, rs1, imm),
{
    i_type(0x03, rd, 0, rs1, imm)
}

pub fn lbu(rd: u32, rs1: u32, imm: i32) -> (r: u32)
    ensures
        r == i_word(0x03, rd, 4, rs1, imm),
{
    i_type(0x03, rd, 4, rs1, imm)
}

pub fn lw(rd: u32, rs1: u32, imm: i32) -> (r: u32)
    ensures
        r == i_word(0x03, rd, 2, rs1, imm),
{
    i_type(0x03, rd, 2, rs1, imm)
}

pub fn ld(rd: u32, rs1: u32, imm: i32) -> (r: u32)
    ensures
        r == i_word(0x03, rd, 3, rs1, imm),
{
    i_type(0x03, rd, 3, rs1, imm)
}

pub fn jalr(rd: u32, rs1: u32, imm: i32) -> (r: u32)
    ensures
        r == i_word(0x67, rd, 0, rs1, imm),
{
    i_type(0x67, rd, 0, rs1, imm)
}

pub fn addw(rd: u32, rs1: u32, rs2: u32) -> (r: u32)
    ensures
        r == r_word(0x3B, rd, 0, rs1, rs2, 0x00),
{
    r_type(0x3B, rd, 0, rs1, rs2, 0x00)
}

pub fn subw(rd: u32, rs1: u32, rs2: u32) -> (r: u32)
    ensures
        r == r_word(0x3B, rd, 0, rs1, rs2, 0x20),
{
    r_type(0x3B, rd, 0, rs1, rs2, 0x20)
}

pub fn sll(rd: u32, rs1: u32, rs2: u32) -> (r: u32)
    ensures
        r == r_word(0x33, rd, 1, rs1, rs2, 0x00),
{
    r_type(0x33, rd, 1, rs1, rs2, 0x00)
}

pub fn add(rd: u32, rs1: u32, rs2: u32) -> (r: u32)
    ensures
        r == r_word(0x33, rd, 0, rs1, rs2, 0x00),
{
    r_type(0x33, rd, 0, rs1, rs2, 0x00)
}

pub fn sub(rd: u32, rs1: u32, rs2: u32) -> (r: u32)
    ensures
        r == r_word(0x33, rd, 0, rs1, rs2, 0x20),
{
    r_type(0x33, rd, 0, rs1, rs2, 0x20)
}

pub fn and(rd: u32, rs1: u32, rs2: u32) -> (r: u32)
    ensures
        r == r_word(0x33, rd, 7, rs1, rs2, 0x00),
{
    r_type(0x33, rd, 7, rs1, rs2, 0x00)
}

pub fn or(rd: u32, rs1: u32, rs2: u32) -> (r: u32)
    ensures
        r == r_word(0x33, rd, 6, rs1, rs2, 0x00),
{
    r_type(0x33, rd, 6, rs1, rs2, 0x00)
}

pub fn xor(rd: u32, rs1: u32, rs2: u32) -> (r: u32)
    ensures
        r == r_word(0x33, rd, 4, rs1, rs2, 0x00),
{
    r_type(0x33, rd, 4, rs1, rs2, 0x00)
}

pub fn sltu(rd: u32, rs1: u32, rs2: u32) -> (r: u32)
    ensures
        r == r_word(0x33, rd, 3, rs1, rs2, 0x00),
{
    r_type(0x33, rd, 3, rs1, rs2, 0x00)
}

pub fn mul(rd: u32, rs1: u32, rs2: u32) -> (r: u32)
    ensures
        r == r_word(0x33, rd, 0, rs1, rs2, 0x01),
{
    r_type(0x33, rd, 0, rs1, rs2, 0x01)
}

pub fn div(rd: u32, rs1: u32, rs2: u32) -> (r: u32)
    ensures
        r == r_word(0x33, rd, 4, rs1, rs2, 0x01),
{
    r_type(0x33, rd, 4, rs1, rs2, 0x01)
}

pub fn divu(rd: u32, rs1: u32, rs2: u32) -> (r: u32)
    ensures
        r == r_word(0x33, rd, 5, rs1, rs2, 0x01),
{
    r_type(0x33, rd, 5, rs1, rs2, 0x01)
}

pub fn rem(rd: u32, rs1: u32, rs2: u32) -> (r: u32)
    ensures
        r == r_word(0x33, rd, 6, rs1, rs2, 0x01),
{
    r_type(0x33, rd, 6, rs1, rs2, 0x01)
}

pub fn remu(rd: u32, rs1: u32, rs2: u32) -> (r: u32)
    ensures
        r == r_word(0x33, rd, 7, rs1, rs2, 0x01),
{
    r_type(0x33, rd, 7, rs1, rs2, 0x01)
}

pub fn sc_w(rd: u32, rs1: u32, rs2: u32) -> (r: u32)
    ensures
        r == r_word(0x2F, rd, 2, rs1, rs2, 0x0C),
{
    r_type(0x2F, rd, 2, rs1, rs2, 0x0C)
}

pub fn sc_d(rd: u32, rs1: u32, rs2: u32) -> (r: u32)
    ensures
        r == r_word(0x2F, rd, 3, rs1, rs2, 0x0C),
{
    r_type(0x2F, rd, 3, rs1, rs2, 0x0C)
}

pub fn amoadd_w(rd: u32, rs1: u32, rs2: u32) -> (r: u32)
    ensures
        r == r_word(0x2F, rd, 2, rs1, rs2, 0x00),
{
    r_type(0x2F, rd, 2, rs1, rs2, 0x00)
}

pub fn amoadd_d(rd: u32, rs1: u32, rs2: u32) -> (r: u32)
    ensures
        r == r_word(0x2F, rd, 3, rs1, rs2, 0x00),
{
    r_type(0x2F, rd, 3, rs1, rs2, 0x00)
}

pub fn amoswap_w(rd: u32, rs1: u32, rs2: u32) -> (r: u32)
    ensures
        r == r_word(0x2F, rd, 2, rs1, rs2, 0x04),
{
    r_type(0x2F, rd, 2, rs1, rs2, 0x04)
}

/// Shift amounts are encoded in the immediate field.
pub fn slliw(rd: u32, rs1: u32, shamt: u32) -> (r: u32)
    ensures
        r == i_word(0x1B, rd, 1, rs1, shamt as i32),
{
    i_type(0x1B, rd, 1, rs1, shamt as i32)
}

pub fn sraiw(rd: u32, rs1: u32, shamt: u32) -> (r: u32)
    ensures
        r == i_word(0x1B, rd, 5, rs1, (shamt | 0x400) as i32),
{
    i_type(0x1B, rd, 5, rs1, (shamt | 0x400) as i32)
}

pub fn slli(rd: u32, rs1: u32, shamt: u32) -> (r: u32)
    ensures
        r == i_word(0x13, rd, 1, rs1, shamt as i32),
{
    i_type(0x13, rd, 1, rs1, shamt as i32)
}

pub fn srli(rd: u32, rs1: u32, shamt: u32) -> (r: u32)
    ensures
        r == i_word(0x13, rd, 5, rs1, shamt as i32),
{
    i_type(0x13, rd, 5, rs1, shamt as i32)
}

pub fn srai(rd: u32, rs1: u32, shamt: u32) -> (r: u32)
    ensures
        r == i_word(0x13, rd, 5, rs1, (shamt | 0x400) as i32),
{
    i_type(0x13, rd, 5, rs1, (shamt | 0x400) as i32)
}

pub fn lui(rd: u32, imm31_12: u32) -> (r: u32)
    ensures
        r == u_word(0x37, rd, imm31_12),
{
    u_type(0x37, rd, imm31_12)
}

pub fn auipc(rd: u32, imm31_12: u32) -> (r: u32)
    ensures
        r == u_word(0x17, rd, imm31_12),
{
    u_type(0x17, rd, imm31_12)
}

pub fn sb(rs1: u32, rs2: u32, imm: i32) -> (r: u32)
    ensures
        r == s_word(0x23, 0, rs1, rs2, imm),
{
    s_type(0x23, 0, rs1, rs2, imm)
}

pub fn sw(rs1: u32, rs2: u32, imm: i32) -> (r: u32)
    ensures
        r == s_word(0x23, 2, rs1, rs2, imm),
{
    s_type(0x23, 2, rs1, rs2, imm)
}

pub fn sd(rs1: u32, rs2: u32, imm: i32) -> (r: u32)
    ensures
        r == s_word(0x23, 3, rs1, rs2, imm),
{
    s_type(0x23, 3, rs1, rs2, imm)
}

pub fn ecall() -> (r: u32)
    ensures
        r == 0x0000_0073,
{
    0x0000_0073
}

pub fn ebreak() -> (r: u32)
    ensures
        r == 0x0010_0073,
{
    0x0010_0073
}

pub fn mret() -> (r: u32)
    ensures
        r == 0x3020_0073,
{
    0x3020_0073
}

pub fn wfi() -> (r: u32)
    ensures
        r == 0x1050_0073,
{
    0x1050_0073
}

pub fn fence() -> (r: u32)
    ensures
        r == 0x0FF0_000F,
{
    0x0FF0_000F
}

/// csrrw rd, csr, rs1
pub fn csrrw(rd: u32, csr: u32, rs1: u32) -> (r: u32)
    ensures
        r == i_word(0x73, rd, 1, rs1, csr as i32),
{
    i_type(0x73, rd, 1, rs1, csr as i32)
}

/// csrrs rd, csr, rs1
pub fn csrrs(rd: u32, csr: u32, rs1: u32) -> (r: u32)
    ensures
        r == i_word(0x73, rd, 2, rs1, csr as i32),
{
    i_type(0x73, rd, 2, rs1, csr as i32)
}

/// lr.w rd, (rs1) with aq/rl clear
pub fn lr_w(rd: u32, rs1: u32) -> (r: u32)
    ensures
        r == r_word(0x2F, rd, 2, rs1, 0, 0x08),
{
    r_type(0x2F, rd, 2, rs1, 0, 0x08)
}

pub fn lr_d(rd: u32, rs1: u32) -> (r: u32)
    ensures
        r == r_word(0x2F, rd, 3, rs1, 0, 0x08),
{
    r_type(0x2F, rd, 3, rs1, 0, 0x08)
}

// ============================================================================
// Assembler with labels and a literal pool
// ============================================================================

/// A pending patch of an instruction word, as recorded by the assembler.
pub enum FixupView {
    /// B-type branch at `word` targeting `label`.
    Branch { word: usize, funct3: u32, rs1: u32, rs2: u32, label: Seq<char> },
    /// JAL at `word` targeting `label`.
    Jump { word: usize, rd: u32, label: Seq<char> },
    /// `la rd, label`: auipc at `word`, addi at `word + 1`.
    LoadAddr { word: usize, rd: u32, label: Seq<char> },
    /// `li rd, const`: auipc at `word`, ld at `word + 1`; constant from the pool.
    LoadConst { word: usize, rd: u32, value: u64 },
}

enum Fixup {
    Branch { word: usize, funct3: u32, rs1: u32, rs2: u32, label: String },
    Jump { word: usize, rd: u32, label: String },
    LoadAddr { word: usize, rd: u32, label: String },
    LoadConst { word: usize, rd: u32, value: u64 },
}

impl View for Fixup {
    type V = FixupView;

    closed spec fn view(&self) -> FixupView {
        match self {
            Fixup::Branch { word, funct3, rs1, rs2, label } =>
                FixupView::Branch { word: *word, funct3: *funct3, rs1: *rs1, rs2: *rs2, label: label@ },
            Fixup::Jump { word, rd, label } => FixupView::Jump { word: *word, rd: *rd, label: label@ },
            Fixup::LoadAddr { word, rd, label } => FixupView::LoadAddr { word: *word, rd: *rd, label: label@ },
            Fixup::LoadConst { word, rd, value } => FixupView::LoadConst { word: *word, rd: *rd, value: *value },
        }
    }
}

/// Abstract assembler state: emitted words, label positions, pending patches.
pub struct AsmView {
    pub words: Seq<u32>,
    pub labels: Map<Seq<char>, usize>,
    pub fixups: Seq<FixupView>,
}

/// Label table of the first `n` label definitions; a later definition of a
/// name replaces an earlier one.
pub open spec fn label_map(entries: Seq<(Seq<char>, usize)>, n: nat) -> Map<Seq<char>, usize>
    decreases n,
{
    if n == 0 || n > entries.len() {
        Map::empty()
    } else {
        label_map(entries, (n - 1) as nat).insert(entries[n - 1].0, entries[n - 1].1)
    }
}

/// Literal pool of the first `n` patches: each distinct `li` constant once,
/// in order of first use.
pub open spec fn pool_of(fixups: Seq<FixupView>, n: nat) -> Seq<u64>
    decreases n,
{
    if n == 0 || n > fixups.len() {
        Seq::empty()
    } else {
        let p = pool_of(fixups, (n - 1) as nat);
        match fixups[n - 1] {
            FixupView::LoadConst { value, .. } => if p.contains(value) { p } else { p.push(value) },
            _ => p,
        }
    }
}

/// Index of a constant in the literal pool.
pub open spec fn slot_of(pool: Seq<u64>, value: u64) -> int {
    choose|i: int| 0 <= i < pool.len() && pool[i] == value
}

/// Words with a nop appended when their number is odd, so that the pool is 8-byte aligned.
pub open spec fn padded(words: Seq<u32>) -> Seq<u32> {
    if words.len() % 2 != 0 { words.push(i_word(0x13, 0, 0, 0, 0)) } else { words }
}

/// Byte offset from instruction `word` to instruction `target`.
pub open spec fn label_offset(word: usize, target: usize) -> int {
    (target - word) * 4
}

/// Byte offset from instruction `word` to pool slot `slot` (pool starting at word `pool_start`).
pub open spec fn pool_offset(pool_start: int, slot: int, word: usize) -> int {
    (pool_start + slot * 2) * 4 - word * 4
}

/// Words after applying one patch.
pub open spec fn apply_fixup(ws: Seq<u32>, f: FixupView, labels: Map<Seq<char>, usize>, pool: Seq<u64>, pool_start: int) -> Seq<u32> {
    match f {
        FixupView::Branch { word, funct3, rs1, rs2, label } =>
            ws.update(word as int, b_word(0x63, funct3, rs1, rs2, label_offset(word, labels[label]) as i32)),
        FixupView::Jump { word, rd, label } =>
            ws.update(word as int, j_word(0x6F, rd, label_offset(word, labels[label]) as i32)),
        FixupView::LoadAddr { word, rd, label } =>
            ws.update(word as int, u_word(0x17, rd, 0))
                .update(word + 1, i_word(0x13, rd, 0, rd, label_offset(word, labels[label]) as i32)),
        FixupView::LoadConst { word, rd, value } =>
            ws.update(word as int, u_word(0x17, rd, 0))
                .update(word + 1, i_word(0x03, rd, 3, rd, pool_offset(pool_start, slot_of(pool, value), word) as i32)),
    }
}

/// Words after applying the first `n` patches in order.
pub open spec fn apply_fixups(ws: Seq<u32>, fixups: Seq<FixupView>, n: nat, labels: Map<Seq<char>, usize>, pool: Seq<u64>, pool_start: int) -> Seq<u32>
    decreases n,
{
    if n == 0 || n > fixups.len() {
        ws
    } else {
        apply_fixup(apply_fixups(ws, fixups, (n - 1) as nat, labels, pool, pool_start), fixups[n - 1], labels, pool, pool_start)
    }
}

/// A patch can be resolved: its label is defined and its offset fits the encoding
/// that the assembler checks.
pub open spec fn fixup_ok(f: FixupView, labels: Map<Seq<char>, usize>, pool: Seq<u64>, pool_start: int) -> bool {
    match f {
        FixupView::Branch { word, label, .. } =>
            labels.contains_key(label) && -4096 <= label_offset(word, labels[label]) < 4096,
        FixupView::Jump { label, .. } => labels.contains_key(label),
        FixupView::LoadAddr { word, label, .. } =>
            labels.contains_key(label) && -2048 <= label_offset(word, labels[label]) < 2048,
        FixupView::LoadConst { word, value, .. } =>
            -2048 <= pool_offset(pool_start, slot_of(pool, value), word) < 2048,
    }
}

/// The words a patch writes lie among the first `len` words.
pub open spec fn fixup_within(f: FixupView, len: nat) -> bool {
    match f {
        FixupView::Branch { word, .. } => word < len,
        FixupView::Jump { word, .. } => word < len,
        FixupView::LoadAddr { word, .. } => word + 1 < len,
        FixupView::LoadConst { word, .. } => word + 1 < len,
    }
}

/// Every patch sits on emitted words.
pub open spec fn fixups_in_bounds(a: AsmView) -> bool {
    forall|k: int| 0 <= k < a.fixups.len() ==> fixup_within(#[trigger] a.fixups[k], a.words.len())
}

/// The program can be assembled: every patch resolves, and its size stays within
/// the address arithmetic of the machine.
pub open spec fn assemble_ok(a: AsmView) -> bool {
    let pool = pool_of(a.fixups, a.fixups.len());
    let start = padded(a.words).len() as int;
    &&& 4 * (a.words.len() + 2 + 2 * a.fixups.len()) <= i64::MAX
    &&& 4 * (a.words.len() + 2 + 2 * a.fixups.len()) <= usize::MAX
    &&& forall|k: int| 0 <= k < a.fixups.len() ==> fixup_ok(#[trigger] a.fixups[k], a.labels, pool, start)
}

/// A program with no words, labels or patches.
pub open spec fn empty_program() -> AsmView {
    AsmView { words: Seq::empty(), labels: Map::empty(), fixups: Seq::empty() }
}

/// The program with `name` labelling the next word.
pub open spec fn mark(a: AsmView, name: Seq<char>) -> AsmView {
    AsmView { labels: a.labels.insert(name, a.words.len() as usize), ..a }
}

/// The program with one more word.
pub open spec fn emit(a: AsmView, w: u32) -> AsmView {
    AsmView { words: a.words.push(w), ..a }
}

/// The program with `n` more copies of a word.
pub open spec fn emit_n(a: AsmView, w: u32, n: nat) -> AsmView
    decreases n,
{
    if n == 0 { a } else { emit(emit_n(a, w, (n - 1) as nat), w) }
}

/// The program with a branch to `label` (a word patched at assembly).
pub open spec fn emit_branch(a: AsmView, funct3: u32, rs1: u32, rs2: u32, label: Seq<char>) -> AsmView {
    AsmView {
        words: a.words.push(0),
        fixups: a.fixups.push(FixupView::Branch { word: a.words.len() as usize, funct3, rs1, rs2, label }),
        ..a
    }
}

/// The program with a jump to `label`.
pub open spec fn emit_jump(a: AsmView, rd: u32, label: Seq<char>) -> AsmView {
    AsmView {
        words: a.words.push(0),
        fixups: a.fixups.push(FixupView::Jump { word: a.words.len() as usize, rd, label }),
        ..a
    }
}

/// The program with the address of `label` loaded into `rd` (two words).
pub open spec fn emit_la(a: AsmView, rd: u32, label: Seq<char>) -> AsmView {
    AsmView {
        words: a.words.push(0).push(0),
        fixups: a.fixups.push(FixupView::LoadAddr { word: a.words.len() as usize, rd, label }),
        ..a
    }
}

/// The program with the constant `value` loaded into `rd`: one addi when it
/// fits a 12-bit signed immediate, else two words patched to load it from the pool.
pub open spec fn emit_li(a: AsmView, rd: u32, value: u64) -> AsmView {
    if -2048 <= (value as i64) <= 2047 {
        emit(a, i_word(0x13, rd, 0, 0, (value as i64) as i32))
    } else {
        AsmView {
            words: a.words.push(0).push(0),
            fixups: a.fixups.push(FixupView::LoadConst { word: a.words.len() as usize, rd, value }),
            ..a
        }
    }
}

/// Little-endian bytes of a word.
pub open spec fn le32(w: u32) -> Seq<u8> {
    seq![(w & 0xff) as u8, ((w >> 8u32) & 0xff) as u8, ((w >> 16u32) & 0xff) as u8, ((w >> 24u32) & 0xff) as u8]
}

/// Little-endian bytes of a doubleword.
pub open spec fn le64(v: u64) -> Seq<u8> {
    seq![(v & 0xff) as u8, ((v >> 8u64) & 0xff) as u8, ((v >> 16u64) & 0xff) as u8, ((v >> 24u64) & 0xff) as u8,
         ((v >> 32u64) & 0xff) as u8, ((v >> 40u64) & 0xff) as u8, ((v >> 48u64) & 0xff) as u8, ((v >> 56u64) & 0xff) as u8]
}

pub open spec fn words_le(ws: Seq<u32>) -> Seq<u8>
    decreases ws.len(),
{
    if ws.len() == 0 { Seq::empty() } else { words_le(ws.drop_last()) + le32(ws.last()) }
}

pub open spec fn dwords_le(vs: Seq<u64>) -> Seq<u8>
    decreases vs.len(),
{
    if vs.len() == 0 { Seq::empty() } else { dwords_le(vs.drop_last()) + le64(vs.last()) }
}

/// Final flat binary: the patched code (padded to 8 bytes), then the literal pool.
pub open spec fn assembled(a: AsmView) -> Seq<u8> {
    let pool = pool_of(a.fixups, a.fixups.len());
    let start = padded(a.words).len() as int;
    words_le(apply_fixups(padded(a.words), a.fixups, a.fixups.len(), a.labels, pool, start)) + dwords_le(pool)
}

/// Tiny two-pass assembler. Word 0 is placed at the load base (e.g. DRAM_BASE).
pub struct Asm {
    words: Vec<u32>,
    labels: Vec<(String, usize)>,
    fixups: Vec<Fixup>,
}

pub open spec fn entries_view(entries: Seq<(String, usize)>) -> Seq<(Seq<char>, usize)> {
    Seq::new(entries.len(), |i: int| (entries[i].0@, entries[i].1))
}

spec fn fixups_view(fixups: Seq<Fixup>) -> Seq<FixupView> {
    Seq::new(fixups.len(), |i: int| fixups[i]@)
}

impl View for Asm {
    type V = AsmView;

    closed spec fn view(&self) -> AsmView {
        AsmView {
            words: self.words@,
            labels: label_map(entries_view(self.labels@), self.labels@.len()),
            fixups: fixups_view(self.fixups@),
        }
    }
}

/// Position of a label (its latest definition), or `None`.
fn lookup_label(entries: &Vec<(String, usize)>, name: &String) -> (r: Option<usize>)
    ensures
        ({
            let m = label_map(entries_view(entries@), entries@.len());
            &&& m.contains_key(name@) ==> r == Some(m[name@])
            &&& !m.contains_key(name@) ==> r is None
        }),
{
    let mut found: Option<usize> = None;
    let mut i: usize = 0;
    while i < entries.len()
        invariant
            i <= entries@.len(),
            ({
                let m = label_map(entries_view(entries@), i as nat);
                &&& m.contains_key(name@) ==> found == Some(m[name@])
                &&& !m.contains_key(name@) ==> found is None
            }),
        decreases entries@.len() - i,
    {
        let eq = entries[i].0 == *name;
        if eq {
            found = Some(entries[i].1);
        }
        i = i + 1;
    }
    found
}

/// Index of `value` in the pool, if present.
fn pool_index(pool: &Vec<u64>, value: u64) -> (r: Option<usize>)
    ensures
        match r {
            Some(i) => i < pool@.len() && pool@[i as int] == value,
            None => !pool@.contains(value),
        },
{
    let mut i: usize = 0;
    while i < pool.len()
        invariant
            i <= pool@.len(),
            forall|j: int| 0 <= j < i ==> pool@[j] != value,
        decreases pool@.len() - i,
    {
        if pool[i] == value {
            return Some(i);
        }
        i = i + 1;
    }
    None
}

/// Each constant appears once in the literal pool.
pub proof fn lemma_pool_no_duplicates(fixups: Seq<FixupView>, n: nat)
    ensures
        pool_of(fixups, n).no_duplicates(),
    decreases n,
{
    if n > 0 && n <= fixups.len() {
        lemma_pool_no_duplicates(fixups, (n - 1) as nat);
    }
}

proof fn lemma_pool_contains(fixups: Seq<FixupView>, n: nat, k: int)
    requires
        0 <= k < n <= fixups.len(),
        fixups[k] is LoadConst,
    ensures
        pool_of(fixups, n).contains(fixups[k]->LoadConst_value),
    decreases n,
{
    let p = pool_of(fixups, (n - 1) as nat);
    if k < n - 1 {
        lemma_pool_contains(fixups, (n - 1) as nat, k);
        assert(p.contains(fixups[k]->LoadConst_value));
        match fixups[n - 1] {
            FixupView::LoadConst { value, .. } => {
                if !p.contains(value) {
                    let j = choose|j: int| 0 <= j < p.len() && p[j] == fixups[k]->LoadConst_value;
                    assert(p.push(value)[j] == fixups[k]->LoadConst_value);
                }
            },
            _ => {},
        }
    } else {
        match fixups[n - 1] {
            FixupView::LoadConst { value, .. } => {
                if !p.contains(value) {
                    assert(p.push(value)[p.len() as int] == value);
                }
            },
            _ => {},
        }
    }
}

proof fn lemma_slot_of(pool: Seq<u64>, value: u64, i: int)
    requires
        pool.no_duplicates(),
        0 <= i < pool.len(),
        pool[i] == value,
    ensures
        slot_of(pool, value) == i,
{
}

proof fn lemma_label_map_prefix(e1: Seq<(Seq<char>, usize)>, e2: Seq<(Seq<char>, usize)>, n: nat)
    requires
        n <= e1.len(),
        n <= e2.len(),
        forall|i: int| 0 <= i < n ==> e1[i] == e2[i],
    ensures
        label_map(e1, n) == label_map(e2, n),
    decreases n,
{
    if n > 0 {
        lemma_label_map_prefix(e1, e2, (n - 1) as nat);
    }
}

proof fn lemma_label_map_bounded(e: Seq<(Seq<char>, usize)>, n: nat, bound: nat, key: Seq<char>)
    requires
        n <= e.len(),
        forall|i: int| 0 <= i < n ==> e[i].1 <= bound,
        label_map(e, n).contains_key(key),
    ensures
        label_map(e, n)[key] <= bound,
    decreases n,
{
    if n > 0 && e[n - 1].0 != key {
        lemma_label_map_bounded(e, (n - 1) as nat, bound, key);
    }
}

impl Asm {
    /// Internal consistency: patches sit on emitted words and labels point at
    /// most one past the last emitted word.
    pub closed spec fn wf(&self) -> bool {
        &&& fixups_in_bounds(self@)
        &&& forall|i: int| 0 <= i < self.labels@.len() ==> self.labels@[i].1 <= self.words@.len()
    }

    /// An empty program.
    pub fn new() -> (r: Self)
        ensures
            r.wf(),
            r@ == empty_program(),
    {
        let r = Self { words: Vec::new(), labels: Vec::new(), fixups: Vec::new() };
        proof {
            assert(r@.fixups =~= Seq::<FixupView>::empty());
        }
        r
    }

    /// Define a label at the current position.
    pub fn label(&mut self, name: &str)
        requires
            old(self).wf(),
        ensures
            final(self).wf(),
            final(self)@ == mark(old(self)@, name@),
    {
        let ghost old_entries = entries_view(self.labels@);
        self.labels.push((name.to_owned(), self.words.len()));
        proof {
            let e = entries_view(self.labels@);
            lemma_label_map_prefix(e, old_entries, old_entries.len());
            assert(e[old_entries.len() as int] == (name@, old(self)@.words.len() as usize));
            assert(self@.fixups == old(self)@.fixups);
            assert(self@.words == old(self)@.words);
        }
    }

    /// Emit a raw instruction word.
    pub fn raw(&mut self, insn: u32)
        requires
            old(self).wf(),
        ensures
            final(self).wf(),
            final(self)@ == emit(old(self)@, insn),
    {
        self.words.push(insn);
        proof {
            assert forall|k: int| 0 <= k < self@.fixups.len() implies
                fixup_within(#[trigger] self@.fixups[k], self@.words.len()) by {
                assert(fixup_within(old(self)@.fixups[k], old(self)@.words.len()));
            }
        }
    }

    /// Emit a conditional branch to a label (funct3 from `bcond`).
    pub fn branch(&mut self, funct3: u32, rs1: u32, rs2: u32, label: &str)
        requires
            old(self).wf(),
        ensures
            final(self).wf(),
            final(self)@ == emit_branch(old(self)@, funct3, rs1, rs2, label@),
    {
        let f = Fixup::Branch { word: self.words.len(), funct3, rs1, rs2, label: label.to_owned() };
        self.fixups.push(f);
        self.words.push(0);
        proof {
            assert(self@.fixups =~= old(self)@.fixups.push(f@));
        }
    }

    /// Emit an unconditional jump (jal rd) to a label.
    pub fn jump(&mut self, rd: u32, label: &str)
        requires
            old(self).wf(),
        ensures
            final(self).wf(),
            final(self)@ == emit_jump(old(self)@, rd, label@),
    {
        let f = Fixup::Jump { word: self.words.len(), rd, label: label.to_owned() };
        self.fixups.push(f);
        self.words.push(0);
        proof {
            assert(self@.fixups =~= old(self)@.fixups.push(f@));
        }
    }

    /// Load the address of a label into a register (auipc + addi); the target
    /// must lie within 2 KiB of the auipc.
    pub fn la(&mut self, rd: u32, label: &str)
        requires
            old(self).wf(),
        ensures
            final(self).wf(),
            final(self)@ == emit_la(old(self)@, rd, label@),
    {
        let f = Fixup::LoadAddr { word: self.words.len(), rd, label: label.to_owned() };
        self.fixups.push(f);
        self.words.push(0);
        self.words.push(0);
        proof {
            assert(self@.fixups =~= old(self)@.fixups.push(f@));
        }
    }

    /// Load a 64-bit constant into a register: a single addi when it fits a
    /// 12-bit signed immediate, otherwise auipc + ld from the literal pool.
    pub fn li(&mut self, rd: u32, value: u64)
        requires
            old(self).wf(),
        ensures
            final(self).wf(),
            final(self)@ == emit_li(old(self)@, rd, value),
    {
        if (value as i64) >= -2048 && (value as i64) <= 2047 {
            self.words.push(addi(rd, 0, value as i64 as i32));
            proof {
                assert forall|k: int| 0 <= k < self@.fixups.len() implies
                    fixup_within(#[trigger] self@.fixups[k], self@.words.len()) by {
                    assert(fixup_within(old(self)@.fixups[k], old(self)@.words.len()));
                }
            }
            return;
        }
        let f = Fixup::LoadConst { word: self.words.len(), rd, value };
        self.fixups.push(f);
        self.words.push(0);
        self.words.push(0);
        proof {
            assert(self@.fixups =~= old(self)@.fixups.push(f@));
        }
    }
}

impl Default for Asm {
    fn default() -> (r: Self)
        ensures
            r.wf(),
            r@ == empty_program(),
    {
        Self::new()
    }
}

fn push_le32(bytes: &mut Vec<u8>, w: u32)
    ensures
        final(bytes)@ == old(bytes)@ + le32(w),
{
    bytes.push((w & 0xff) as u8);
    bytes.push(((w >> 8) & 0xff) as u8);
    bytes.push(((w >> 16) & 0xff) as u8);
    bytes.push(((w >> 24) & 0xff) as u8);
    proof {
        assert(final(bytes)@ =~= old(bytes)@ + le32(w));
    }
}

fn push_le64(bytes: &mut Vec<u8>, v: u64)
    ensures
        final(bytes)@ == old(bytes)@ + le64(v),
{
    bytes.push((v & 0xff) as u8);
    bytes.push(((v >> 8) & 0xff) as u8);
    bytes.push(((v >> 16) & 0xff) as u8);
    bytes.push(((v >> 24) & 0xff) as u8);
    bytes.push(((v >> 32) & 0xff) as u8);
    bytes.push(((v >> 40) & 0xff) as u8);
    bytes.push(((v >> 48) & 0xff) as u8);
    bytes.push(((v >> 56) & 0xff) as u8);
    proof {
        assert(final(bytes)@ =~= old(bytes)@ + le64(v));
    }
}

impl Asm {
    /// Resolve every patch and return the flat binary: code padded to 8 bytes,
    /// then the literal pool.
    pub fn assemble(self) -> (r: Vec<u8>)
        requires
            self.wf(),
            assemble_ok(self@),
        ensures
            r@ == assembled(self@),
    {
        let ghost a = self@;
        let Asm { words, labels, fixups } = self;
        let mut words = words;
        proof {
            assert(a.fixups == fixups_view(fixups@));
        }
        let mut pool_start_words = words.len();
        if pool_start_words % 2 != 0 {
            words.push(addi(0, 0, 0));
            pool_start_words = pool_start_words + 1;
        }
        assert(words@ == padded(a.words));

        // Assign pool slots (each distinct constant once).
        let mut pool: Vec<u64> = Vec::new();
        let mut k: usize = 0;
        while k < fixups.len()
            invariant
                k <= fixups@.len(),
                a.fixups == fixups_view(fixups@),
                pool@ == pool_of(a.fixups, k as nat),
                pool@.len() <= k,
            decreases fixups@.len() - k,
        {
            match &fixups[k] {
                Fixup::LoadConst { value, .. } => {
                    if pool_index(&pool, *value).is_none() {
                        pool.push(*value);
                    }
                },
                _ => {},
            }
            k = k + 1;
        }
        let ghost full_pool = pool@;
        proof {
            lemma_pool_no_duplicates(a.fixups, a.fixups.len());
        }

        // Patch every fixup.
        k = 0;
        while k < fixups.len()
            invariant
                k <= fixups@.len(),
                a.fixups == fixups_view(fixups@),
                a.labels == label_map(entries_view(labels@), labels@.len()),
                forall|i: int| 0 <= i < labels@.len() ==> labels@[i].1 <= a.words.len(),
                fixups_in_bounds(a),
                assemble_ok(a),
                pool@ == full_pool,
                full_pool == pool_of(a.fixups, a.fixups.len()),
                full_pool.no_duplicates(),
                full_pool.len() <= a.fixups.len(),
                pool_start_words == padded(a.words).len(),
                words@.len() == padded(a.words).len(),
                words@ == apply_fixups(padded(a.words), a.fixups, k as nat, a.labels, full_pool, pool_start_words as int),
            decreases fixups@.len() - k,
        {
            let ghost f = a.fixups[k as int];
            let ghost prev = words@;
            assert(fixup_ok(f, a.labels, full_pool, pool_start_words as int));
            match &fixups[k] {
                Fixup::Branch { word, funct3, rs1, rs2, label } => {
                    let target = lookup_label(&labels, label).unwrap();
                    proof {
                        lemma_label_map_bounded(entries_view(labels@), labels@.len(), a.words.len(), label@);
                    }
                    let offset = (target as i64 - *word as i64) * 4;
                    words.set(*word, b_type(0x63, *funct3, *rs1, *rs2, offset as i32));
                },
                Fixup::Jump { word, rd, label } => {
                    let target = lookup_label(&labels, label).unwrap();
                    proof {
                        lemma_label_map_bounded(entries_view(labels@), labels@.len(), a.words.len(), label@);
                    }
                    let offset = (target as i64 - *word as i64) * 4;
                    words.set(*word, j_type(0x6F, *rd, offset as i32));
                },
                Fixup::LoadAddr { word, rd, label } => {
                    let target = lookup_label(&labels, label).unwrap();
                    proof {
                        lemma_label_map_bounded(entries_view(labels@), labels@.len(), a.words.len(), label@);
                    }
                    let offset = (target as i64 - *word as i64) * 4;
                    words.set(*word, auipc(*rd, 0));
                    words.set(*word + 1, addi(*rd, *rd, offset as i32));
                },
                Fixup::LoadConst { word, rd, value } => {
                    proof {
                        lemma_pool_contains(a.fixups, a.fixups.len(), k as int);
                    }
                    let slot = pool_index(&pool, *value).unwrap();
                    proof {
                        lemma_slot_of(full_pool, *value, slot as int);
                    }
                    let pool_byte = (pool_start_words + slot * 2) * 4;
                    let offset = pool_byte as i64 - (*word as i64) * 4;
                    words.set(*word, auipc(*rd, 0));
                    words.set(*word + 1, ld(*rd, *rd, offset as i32));
                },
            }
            proof {
                assert(words@ =~= apply_fixup(prev, f, a.labels, full_pool, pool_start_words as int));
            }
            k = k + 1;
        }

        // Emit code then literal pool, little-endian.
        let mut bytes: Vec<u8> = Vec::new();
        let mut i: usize = 0;
        while i < words.len()
            invariant
                i <= words@.len(),
                bytes@ == words_le(words@.subrange(0, i as int)),
            decreases words@.len() - i,
        {
            push_le32(&mut bytes, words[i]);
            proof {
                assert(words@.subrange(0, i + 1).drop_last() =~= words@.subrange(0, i as int));
            }
            i = i + 1;
        }
        proof {
            assert(words@.subrange(0, words@.len() as int) =~= words@);
        }
        let ghost code = bytes@;
        let mut j: usize = 0;
        while j < pool.len()
            invariant
                j <= pool@.len(),
                bytes@ == code + dwords_le(pool@.subrange(0, j as int)),
            decreases pool@.len() - j,
        {
            push_le64(&mut bytes, pool[j]);
            proof {
                assert(pool@.subrange(0, j + 1).drop_last() =~= pool@.subrange(0, j as int));
                assert(bytes@ =~= code + dwords_le(pool@.subrange(0, j + 1)));
            }
            j = j + 1;
        }
        proof {
            assert(pool@.subrange(0, pool@.len() as int) =~= pool@);
        }
        bytes
    }
}

proof fn lemma_words_le_len(ws: Seq<u32>)
    ensures
        words_le(ws).len() == 4 * ws.len(),
    decreases ws.len(),
{
    if ws.len() > 0 {
        lemma_words_le_len(ws.drop_last());
    }
}

proof fn lemma_dwords_le_len(vs: Seq<u64>)
    ensures
        dwords_le(vs).len() == 8 * vs.len(),
    decreases vs.len(),
{
    if vs.len() > 0 {
        lemma_dwords_le_len(vs.drop_last());
    }
}

proof fn lemma_apply_fixups_len(ws: Seq<u32>, fixups: Seq<FixupView>, n: nat, labels: Map<Seq<char>, usize>, pool: Seq<u64>, start: int)
    requires
        forall|k: int| 0 <= k < fixups.len() ==> fixup_within(#[trigger] fixups[k], ws.len()),
    ensures
        apply_fixups(ws, fixups, n, labels, pool, start).len() == ws.len(),
    decreases n,
{
    if n > 0 && n <= fixups.len() {
        lemma_apply_fixups_len(ws, fixups, (n - 1) as nat, labels, pool, start);
    }
}

/// The binary is the code, padded to an even number of words, followed by one
/// doubleword per distinct `li` constant.
pub proof fn lemma_assembled_layout(a: AsmView)
    requires
        fixups_in_bounds(a),
    ensures
        padded(a.words).len() % 2 == 0,
        assembled(a).len() == 4 * padded(a.words).len() + 8 * pool_of(a.fixups, a.fixups.len()).len(),
{
    let pool = pool_of(a.fixups, a.fixups.len());
    let start = padded(a.words).len() as int;
    assert forall|k: int| 0 <= k < a.fixups.len() implies fixup_within(#[trigger] a.fixups[k], padded(a.words).len()) by {
        assert(fixup_within(a.fixups[k], a.words.len()));
    }
    lemma_apply_fixups_len(padded(a.words), a.fixups, a.fixups.len(), a.labels, pool, start);
    lemma_words_le_len(apply_fixups(padded(a.words), a.fixups, a.fixups.len(), a.labels, pool, start));
    lemma_dwords_le_len(pool);
}

// ============================================================================
// Decoding laws: every encoder places its fields where the ISA reads them.
// ============================================================================

pub open spec fn opcode_of(w: u32) -> u32 { w & 0x7f }
pub open spec fn rd_of(w: u32) -> u32 { (w >> 7u32) & 0x1f }
pub open spec fn funct3_of(w: u32) -> u32 { (w >> 12u32) & 7 }
pub open spec fn rs1_of(w: u32) -> u32 { (w >> 15u32) & 0x1f }
pub open spec fn rs2_of(w: u32) -> u32 { (w >> 20u32) & 0x1f }
pub open spec fn funct7_of(w: u32) -> u32 { w >> 25u32 }

/// Sign-extended I-type immediate.
pub open spec fn imm_i_of(w: u32) -> i32 {
    (w as i32) >> 20i32
}

/// Sign-extended S-type immediate.
pub open spec fn imm_s_of(w: u32) -> i32 {
    (((w as i32) >> 25i32) << 5i32) | (((w >> 7u32) & 0x1f) as i32)
}

/// Sign-extended B-type byte offset.
pub open spec fn imm_b_of(w: u32) -> i32 {
    (((w as i32) >> 31i32) << 12i32)
        | (((((w >> 7u32) & 1) << 11u32) | (((w >> 25u32) & 0x3f) << 5u32) | (((w >> 8u32) & 0xf) << 1u32)) as i32)
}

/// Sign-extended J-type byte offset.
pub open spec fn imm_j_of(w: u32) -> i32 {
    (((w as i32) >> 31i32) << 20i32)
        | (((((w >> 12u32) & 0xff) << 12u32) | (((w >> 20u32) & 1) << 11u32) | (((w >> 21u32) & 0x3ff) << 1u32)) as i32)
}

/// R-type fields decode back.
pub proof fn lemma_r_type_fields(opcode: u32, rd: u32, funct3: u32, rs1: u32, rs2: u32, funct7: u32)
    requires
        opcode < 128, rd < 32, funct3 < 8, rs1 < 32, rs2 < 32, funct7 < 128,
    ensures
        opcode_of(r_word(opcode, rd, funct3, rs1, rs2, funct7)) == opcode,
        rd_of(r_word(opcode, rd, funct3, rs1, rs2, funct7)) == rd,
        funct3_of(r_word(opcode, rd, funct3, rs1, rs2, funct7)) == funct3,
        rs1_of(r_word(opcode, rd, funct3, rs1, rs2, funct7)) == rs1,
        rs2_of(r_word(opcode, rd, funct3, rs1, rs2, funct7)) == rs2,
        funct7_of(r_word(opcode, rd, funct3, rs1, rs2, funct7)) == funct7,
{
    assert(({
        let w = (funct7 << 25u32) | (rs2 << 20u32) | (rs1 << 15u32) | (funct3 << 12u32) | (rd << 7u32) | opcode;
        &&& w & 0x7f == opcode
        &&& (w >> 7u32) & 0x1f == rd
        &&& (w >> 12u32) & 7 == funct3
        &&& (w >> 15u32) & 0x1f == rs1
        &&& (w >> 20u32) & 0x1f == rs2
        &&& w >> 25u32 == funct7
    })) by (bit_vector)
        requires opcode < 128, rd < 32, funct3 < 8, rs1 < 32, rs2 < 32, funct7 < 128;
}

/// I-type fields and 12-bit signed immediate decode back.
pub proof fn lemma_i_type_fields(opcode: u32, rd: u32, funct3: u32, rs1: u32, imm: i32)
    requires
        opcode < 128, rd < 32, funct3 < 8, rs1 < 32, -2048 <= imm < 2048,
    ensures
        opcode_of(i_word(opcode, rd, funct3, rs1, imm)) == opcode,
        rd_of(i_word(opcode, rd, funct3, rs1, imm)) == rd,
        funct3_of(i_word(opcode, rd, funct3, rs1, imm)) == funct3,
        rs1_of(i_word(opcode, rd, funct3, rs1, imm)) == rs1,
        imm_i_of(i_word(opcode, rd, funct3, rs1, imm)) == imm,
{
    assert(({
        let w = (((imm as u32) & 0xFFF) << 20u32) | (rs1 << 15u32) | (funct3 << 12u32) | (rd << 7u32) | opcode;
        &&& w & 0x7f == opcode
        &&& (w >> 7u32) & 0x1f == rd
        &&& (w >> 12u32) & 7 == funct3
        &&& (w >> 15u32) & 0x1f == rs1
        &&& (w as i32) >> 20i32 == imm
    })) by (bit_vector)
        requires opcode < 128, rd < 32, funct3 < 8, rs1 < 32, -2048 <= imm < 2048;
}

/// S-type fields and 12-bit signed immediate decode back.
pub proof fn lemma_s_type_fields(opcode: u32, funct3: u32, rs1: u32, rs2: u32, imm: i32)
    requires
        opcode < 128, funct3 < 8, rs1 < 32, rs2 < 32, -2048 <= imm < 2048,
    ensures
        opcode_of(s_word(opcode, funct3, rs1, rs2, imm)) == opcode,
        funct3_of(s_word(opcode, funct3, rs1, rs2, imm)) == funct3,
        rs1_of(s_word(opcode, funct3, rs1, rs2, imm)) == rs1,
        rs2_of(s_word(opcode, funct3, rs1, rs2, imm)) == rs2,
        imm_s_of(s_word(opcode, funct3, rs1, rs2, imm)) == imm,
{
    assert(({
        let u = imm as u32;
        let w = (((u >> 5u32) & 0x7F) << 25u32) | (rs2 << 20u32) | (rs1 << 15u32) | (funct3 << 12u32)
            | ((u & 0x1F) << 7u32) | opcode;
        &&& w & 0x7f == opcode
        &&& (w >> 12u32) & 7 == funct3
        &&& (w >> 15u32) & 0x1f == rs1
        &&& (w >> 20u32) & 0x1f == rs2
        &&& (((w as i32) >> 25i32) << 5i32) | (((w >> 7u32) & 0x1f) as i32) == imm
    })) by (bit_vector)
        requires opcode < 128, funct3 < 8, rs1 < 32, rs2 < 32, -2048 <= imm < 2048;
}

/// B-type fields and even 13-bit signed offset decode back.
pub proof fn lemma_b_type_fields(opcode: u32, funct3: u32, rs1: u32, rs2: u32, offset: i32)
    requires
        opcode < 128, funct3 < 8, rs1 < 32, rs2 < 32, -4096 <= offset < 4096, offset % 2 == 0,
    ensures
        opcode_of(b_word(opcode, funct3, rs1, rs2, offset)) == opcode,
        funct3_of(b_word(opcode, funct3, rs1, rs2, offset)) == funct3,
        rs1_of(b_word(opcode, funct3, rs1, rs2, offset)) == rs1,
        rs2_of(b_word(opcode, funct3, rs1, rs2, offset)) == rs2,
        imm_b_of(b_word(opcode, funct3, rs1, rs2, offset)) == offset,
{
    assert(offset & 1 == 0) by (bit_vector) requires offset % 2 == 0;
    assert(({
        let u = offset as u32;
        let w = (((u >> 12u32) & 1) << 31u32) | (((u >> 5u32) & 0x3F) << 25u32) | (rs2 << 20u32) | (rs1 << 15u32)
            | (funct3 << 12u32) | (((u >> 1u32) & 0xF) << 8u32) | (((u >> 11u32) & 1) << 7u32) | opcode;
        &&& w & 0x7f == opcode
        &&& (w >> 12u32) & 7 == funct3
        &&& (w >> 15u32) & 0x1f == rs1
        &&& (w >> 20u32) & 0x1f == rs2
        &&& (((w as i32) >> 31i32) << 12i32)
            | (((((w >> 7u32) & 1) << 11u32) | (((w >> 25u32) & 0x3f) << 5u32) | (((w >> 8u32) & 0xf) << 1u32)) as i32)
            == offset
    })) by (bit_vector)
        requires opcode < 128, funct3 < 8, rs1 < 32, rs2 < 32, -4096 <= offset < 4096, offset & 1 == 0;
}

/// J-type fields and even 21-bit signed offset decode back.
pub proof fn lemma_j_type_fields(opcode: u32, rd: u32, offset: i32)
    requires
        opcode < 128, rd < 32, -0x10_0000 <= offset < 0x10_0000, offset % 2 == 0,
    ensures
        opcode_of(j_word(opcode, rd, offset)) == opcode,
        rd_of(j_word(opcode, rd, offset)) == rd,
        imm_j_of(j_word(opcode, rd, offset)) == offset,
{
    assert(offset & 1 == 0) by (bit_vector) requires offset % 2 == 0;
    assert(({
        let u = offset as u32;
        let w = (((u >> 20u32) & 1) << 31u32) | (((u >> 1u32) & 0x3FF) << 21u32) | (((u >> 11u32) & 1) << 20u32)
            | (((u >> 12u32) & 0xFF) << 12u32) | (rd << 7u32) | opcode;
        &&& w & 0x7f == opcode
        &&& (w >> 7u32) & 0x1f == rd
        &&& (((w as i32) >> 31i32) << 20i32)
            | (((((w >> 12u32) & 0xff) << 12u32) | (((w >> 20u32) & 1) << 11u32) | (((w >> 21u32) & 0x3ff) << 1u32)) as i32)
            == offset
    })) by (bit_vector)
        requires opcode < 128, rd < 32, -0x10_0000 <= offset < 0x10_0000, offset & 1 == 0;
}

/// Every label that a patch refers to is defined.
pub open spec fn labels_defined(a: AsmView) -> bool {
    forall|k: int| 0 <= k < a.fixups.len() ==> match #[trigger] a.fixups[k] {
        FixupView::Branch { label, .. } => a.labels.contains_key(label),
        FixupView::Jump { label, .. } => a.labels.contains_key(label),
        FixupView::LoadAddr { label, .. } => a.labels.contains_key(label),
        FixupView::LoadConst { .. } => true,
    }
}

/// Labels of a well-formed program point at most one past its last word.
pub proof fn lemma_labels_within(a: &Asm)
    requires
        a.wf(),
    ensures
        fixups_in_bounds(a@),
        forall|k: Seq<char>| a@.labels.contains_key(k) ==> #[trigger] a@.labels[k] <= a@.words.len(),
{
    let e = entries_view(a.labels@);
    assert forall|k: Seq<char>| a@.labels.contains_key(k) implies #[trigger] a@.labels[k] <= a@.words.len() by {
        assert forall|i: int| 0 <= i < e.len() implies e[i].1 <= a@.words.len() by {
            assert(a.labels@[i].1 <= a.words@.len());
        }
        lemma_label_map_bounded(e, e.len(), a@.words.len(), k);
    }
}

/// The pool of the first `n` patches has at most `n` constants and holds
/// every constant that one of them loads.
proof fn lemma_pool_covers(fixups: Seq<FixupView>, n: nat)
    requires
        n <= fixups.len(),
    ensures
        pool_of(fixups, n).len() <= n,
        forall|j: int| 0 <= j < n ==> (#[trigger] fixups[j] matches FixupView::LoadConst { value, .. } ==> pool_of(fixups, n).contains(value)),
    decreases n,
{
    if n > 0 {
        lemma_pool_covers(fixups, (n - 1) as nat);
        let p = pool_of(fixups, (n - 1) as nat);
        assert forall|j: int| 0 <= j < n implies (#[trigger] fixups[j] matches FixupView::LoadConst { value, .. } ==> pool_of(fixups, n).contains(value)) by {
            if let FixupView::LoadConst { value, .. } = fixups[j] {
                if j < n - 1 {
                    assert(p.contains(value));
                    if let FixupView::LoadConst { value: v2, .. } = fixups[n - 1] {
                        if !p.contains(v2) {
                            let i = choose|i: int| 0 <= i < p.len() && p[i] == value;
                            assert(p.push(v2)[i] == value);
                        }
                    }
                } else if !p.contains(value) {
                    assert(p.push(value)[p.len() as int] == value);
                }
            }
        }
    }
}

/// A program whose patches all name defined labels, and whose code and
/// literal pool together span at most 2 KiB, can be assembled.
pub proof fn lemma_small_program_assembles(a: AsmView)
    requires
        fixups_in_bounds(a),
        forall|k: Seq<char>| a.labels.contains_key(k) ==> #[trigger] a.labels[k] <= a.words.len(),
        labels_defined(a),
        a.words.len() + 2 * a.fixups.len() + 2 <= 512,
    ensures
        assemble_ok(a),
{
    let pool = pool_of(a.fixups, a.fixups.len());
    let start = padded(a.words).len() as int;
    lemma_pool_covers(a.fixups, a.fixups.len());
    assert forall|k: int| 0 <= k < a.fixups.len() implies fixup_ok(#[trigger] a.fixups[k], a.labels, pool, start) by {
        assert(fixup_within(a.fixups[k], a.words.len()));
        if let FixupView::LoadConst { word, value, .. } = a.fixups[k] {
            assert(pool.contains(value));
            let slot = slot_of(pool, value);
            assert(0 <= slot < pool.len());
        }
    }
}

/// U-type fields decode back.
pub proof fn lemma_u_type_fields(opcode: u32, rd: u32, imm31_12: u32)
    requires
        opcode < 128, rd < 32, imm31_12 < 0x10_0000,
    ensures
        opcode_of(u_word(opcode, rd, imm31_12)) == opcode,
        rd_of(u_word(opcode, rd, imm31_12)) == rd,
        u_word(opcode, rd, imm31_12) >> 12u32 == imm31_12,
{
    assert(({
        let w = (imm31_12 << 12u32) | (rd << 7u32) | opcode;
        &&& w & 0x7f == opcode
        &&& (w >> 7u32) & 0x1f == rd
        &&& w >> 12u32 == imm31_12
    })) by (bit_vector)
        requires opcode < 128, rd < 32, imm31_12 < 0x10_0000;
}

} // verus!
