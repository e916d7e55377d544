use riscv_vm::bench::assembler::bcond;
use riscv_vm::bench::assembler::{
    add, addi, b_type, ecall, i_type, j_type, lr_w, lui, mret, r_type, s_type, sd, u_type, Asm,
};

#[test]
fn test_known_encodings() {
    assert_eq!(addi(1, 0, 5), 0x0050_0093); // addi x1, x0, 5
    assert_eq!(add(3, 1, 2), 0x0020_81B3); // add x3, x1, x2
    assert_eq!(ecall(), 0x0000_0073);
    assert_eq!(mret(), 0x3020_0073);
}

#[test]
fn test_labels_and_literals() {
    let mut a = Asm::new();
    a.li(5, 0x8010_0000);
    a.label("loop");
    a.raw(addi(6, 6, 1));
    a.branch(bcond::NE, 6, 0, "loop");
    a.jump(0, "loop");
    let bytes = a.assemble();
    // 2 (li) + 1 (addi) + 1 (branch) + 1 (jump) + 1 (pad) words + 1 const
    assert_eq!(bytes.len(), 6 * 4 + 8);
    // Literal pool holds the constant.
    let pool = u64::from_le_bytes(bytes[24..32].try_into().unwrap());
    assert_eq!(pool, 0x8010_0000);
}

fn word_at(bytes: &[u8], i: usize) -> u32 {
    u32::from_le_bytes(bytes[i * 4..i * 4 + 4].try_into().unwrap())
}

#[test]
fn encoder_field_layout() {
    // I-type: negative immediate lands in bits 31..20 in two's complement.
    let w = addi(5, 6, -12);
    assert_eq!(w & 0x7f, 0x13);
    assert_eq!((w >> 7) & 0x1f, 5);
    assert_eq!((w >> 15) & 0x1f, 6);
    assert_eq!((w >> 20) as i32 | if (w >> 31) != 0 { !0xfff } else { 0 }, -12);
    // S-type: sd x11, 40(x10)
    let s = sd(10, 11, 40);
    assert_eq!(s, s_type(0x23, 3, 10, 11, 40));
    assert_eq!(s & 0x7f, 0x23);
    assert_eq!((s >> 12) & 7, 3);
    assert_eq!(((s >> 25) << 5) | ((s >> 7) & 0x1f), 40);
    // U-type and R-type
    assert_eq!(lui(1, 0x12345), 0x1234_50b7);
    assert_eq!(u_type(0x37, 1, 0x12345), 0x1234_50b7);
    assert_eq!(r_type(0x33, 3, 0, 1, 2, 0), 0x0020_81B3);
    assert_eq!(i_type(0x13, 1, 0, 0, 5), 0x0050_0093);
    // LR.W x7, (x5)
    let l = lr_w(7, 5);
    assert_eq!(l & 0x7f, 0x2f);
    assert_eq!((l >> 27) & 0x1f, 0b00010);
}

#[test]
fn branch_and_jump_encodings() {
    // beq/bne with a backwards offset of -8: known encoding of `bne x7, x0, -8`.
    assert_eq!(b_type(0x63, bcond::NE, 7, 0, -8), 0xfe03_9ce3);
    // jal x0, -16
    assert_eq!(j_type(0x6F, 0, -16), 0xff1f_f06f);
}

#[test]
fn assembled_branch_targets_label() {
    let mut a = Asm::new();
    a.label("top");
    a.raw(addi(1, 1, 1));
    a.branch(bcond::EQ, 1, 2, "top");
    a.jump(0, "top");
    let bytes = a.assemble();
    // three code words plus one nop of padding
    assert_eq!(bytes.len(), 16);
    assert_eq!(word_at(&bytes, 3), addi(0, 0, 0));
    assert_eq!(word_at(&bytes, 1), b_type(0x63, bcond::EQ, 1, 2, -4));
    assert_eq!(word_at(&bytes, 2), j_type(0x6F, 0, -8));
}

#[test]
fn forward_label_resolves() {
    let mut a = Asm::new();
    a.jump(0, "end");
    a.raw(addi(1, 0, 1));
    a.label("end");
    a.raw(ecall());
    let bytes = a.assemble();
    assert_eq!(bytes.len(), 16);
    assert_eq!(word_at(&bytes, 0), j_type(0x6F, 0, 8));
}

#[test]
fn la_uses_auipc_addi_pair() {
    let mut a = Asm::new();
    a.la(10, "data");
    a.raw(ecall());
    a.label("data");
    a.raw(0xdead_beef);
    let bytes = a.assemble();
    assert_eq!(bytes.len(), 16);
    // auipc x10, 0 ; addi x10, x10, 12
    assert_eq!(word_at(&bytes, 0), u_type(0x17, 10, 0));
    assert_eq!(word_at(&bytes, 1), addi(10, 10, 12));
    assert_eq!(word_at(&bytes, 3), 0xdead_beef);
}

#[test]
fn empty_program_assembles_to_nothing() {
    let a = Asm::new();
    assert!(a.assemble().is_empty());
}

#[test]
fn literal_pool_dedups_equal_constants() {
    let mut a = Asm::new();
    a.li(5, 0x1122_3344_5566_7788);
    a.li(6, 0x1122_3344_5566_7788);
    let bytes = a.assemble();
    // four code words, no padding needed, one 8-byte constant
    assert_eq!(bytes.len(), 4 * 4 + 8);
    let pool = u64::from_le_bytes(bytes[16..24].try_into().unwrap());
    assert_eq!(pool, 0x1122_3344_5566_7788);
}

/// The instruction fields a RISC-V decoder reads, taken apart by hand.
fn rd_of(w: u32) -> u32 { (w >> 7) & 0x1F }
fn rs1_of(w: u32) -> u32 { (w >> 15) & 0x1F }
fn rs2_of(w: u32) -> u32 { (w >> 20) & 0x1F }
fn funct3_of(w: u32) -> u32 { (w >> 12) & 0x7 }
fn i_imm(w: u32) -> i32 { (w as i32) >> 20 }
fn s_imm(w: u32) -> i32 { (((w as i32) >> 25) << 5) | ((w >> 7) & 0x1F) as i32 }
fn b_imm(w: u32) -> i32 {
    let sign = ((w as i32) >> 31) << 12;
    sign | (((w >> 7) & 1) << 11) as i32 | (((w >> 25) & 0x3F) << 5) as i32 | (((w >> 8) & 0xF) << 1) as i32
}
fn j_imm(w: u32) -> i32 {
    let sign = ((w as i32) >> 31) << 20;
    sign | (((w >> 12) & 0xFF) << 12) as i32 | (((w >> 20) & 1) << 11) as i32 | (((w >> 21) & 0x3FF) << 1) as i32
}

#[test]
fn test_roundtrip_through_decoder() {
    let w = addi(5, 6, -12);
    assert_eq!(w & 0x7F, 0x13);
    assert_eq!(rd_of(w), 5);
    assert_eq!(rs1_of(w), 6);
    assert_eq!(i_imm(w), -12);
    assert_eq!(funct3_of(w), 0);

    let w = sd(10, 11, 40);
    assert_eq!(w & 0x7F, 0x23);
    assert_eq!(rs1_of(w), 10);
    assert_eq!(rs2_of(w), 11);
    assert_eq!(s_imm(w), 40);
    assert_eq!(funct3_of(w), 3);

    let w = b_type(0x63, bcond::NE, 7, 0, -8);
    assert_eq!(rs1_of(w), 7);
    assert_eq!(rs2_of(w), 0);
    assert_eq!(b_imm(w), -8);
    assert_eq!(funct3_of(w), 1);

    let w = j_type(0x6F, 0, -16);
    assert_eq!(rd_of(w), 0);
    assert_eq!(j_imm(w), -16);

    let w = lr_w(7, 5);
    assert_eq!(w & 0x7F, 0x2F);
    assert_eq!(rd_of(w), 7);
    assert_eq!(rs1_of(w), 5);
    assert_eq!(funct3_of(w), 2);
    assert_eq!(w >> 27, 0b00010);
}
