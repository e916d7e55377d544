use riscv_vm::cpu::csr::CSR_MSTATUS;
use riscv_vm::cpu::fp_ops::FpStep;
use riscv_vm::cpu::hart::Cpu;
use riscv_vm::cpu::types::Trap;

fn cpu() -> Cpu {
    Cpu::new(0x8000_0000, 0)
}

const ILLEGAL: Result<FpStep, Trap> = Err(Trap::IllegalInstruction(0));

#[test]
fn sign_injection_on_boxed_singles_and_doubles() {
    let mut c = cpu();
    c.fregs[1] = 0xFFFF_FFFF_0000_0000 | 1.5f32.to_bits() as u64;
    c.fregs[2] = 0xFFFF_FFFF_0000_0000 | (-2.0f32).to_bits() as u64;
    // FSGNJ.S f3, f1, f2: magnitude of f1, sign of f2.
    assert_eq!(c.exec_op_fp_exact(3, 1, 2, 0x10, 0), Ok(FpStep::Done));
    assert_eq!(c.fregs[3], 0xFFFF_FFFF_0000_0000 | (-1.5f32).to_bits() as u64);
    // FSGNJN.D of a double with itself negates it.
    c.fregs[4] = 2.5f64.to_bits();
    assert_eq!(c.exec_op_fp_exact(5, 4, 4, 0x11, 1), Ok(FpStep::Done));
    assert_eq!(c.fregs[5], (-2.5f64).to_bits());
    assert_eq!((c.csrs.get(CSR_MSTATUS as usize) >> 13) & 3, 3);
    assert_eq!(c.exec_op_fp_exact(5, 4, 4, 0x11, 3), ILLEGAL);
}

#[test]
fn moves_and_classification() {
    let mut c = cpu();
    c.fregs[1] = 0xFFFF_FFFF_8000_0001;
    // FMV.X.W sign-extends the low word.
    assert_eq!(c.exec_op_fp_exact(6, 1, 0, 0x70, 0), Ok(FpStep::Done));
    assert_eq!(c.read_reg(6), 0xFFFF_FFFF_8000_0001);
    // FCLASS.D of +infinity.
    c.fregs[2] = f64::INFINITY.to_bits();
    assert_eq!(c.exec_op_fp_exact(7, 2, 0, 0x71, 1), Ok(FpStep::Done));
    assert_eq!(c.read_reg(7), 0x80);
    // FCLASS.S of an unboxed value sees the canonical NaN (quiet).
    c.fregs[3] = 1.0f64.to_bits();
    assert_eq!(c.exec_op_fp_exact(8, 3, 0, 0x70, 1), Ok(FpStep::Done));
    assert_eq!(c.read_reg(8), 0x200);
    // FMV.W.X boxes the low word; FMV.D.X moves all 64 bits.
    c.write_reg(9, 0x1234_5678_4040_0000);
    assert_eq!(c.exec_op_fp_exact(10, 9, 0, 0x78, 0), Ok(FpStep::Done));
    assert_eq!(c.fregs[10], 0xFFFF_FFFF_4040_0000);
    assert_eq!(c.exec_op_fp_exact(11, 9, 0, 0x79, 0), Ok(FpStep::Done));
    assert_eq!(c.fregs[11], 0x1234_5678_4040_0000);
    assert_eq!(c.exec_op_fp_exact(11, 9, 0, 0x70, 2), ILLEGAL);
}

#[test]
fn arithmetic_is_left_to_the_host_and_bad_encodings_refused() {
    let mut c = cpu();
    assert_eq!(c.exec_op_fp_exact(2, 1, 1, 0x01, 7), Ok(FpStep::Host));
    assert_eq!(c.exec_op_fp_exact(5, 1, 2, 0x51, 1), Ok(FpStep::Host));
    assert_eq!(c.exec_op_fp_exact(5, 1, 2, 0x51, 3), ILLEGAL);
    assert_eq!(c.exec_op_fp_exact(5, 1, 3, 0x61, 1), Ok(FpStep::Host));
    assert_eq!(c.exec_op_fp_exact(5, 1, 4, 0x61, 1), ILLEGAL);
    assert_eq!(c.exec_op_fp_exact(5, 1, 2, 0x7F, 0), ILLEGAL);
    assert_eq!(c.fregs, [0u64; 32]);
}

#[test]
fn fs_off_refuses_every_op_fp() {
    let mut c = cpu();
    let ms = c.csrs.get(CSR_MSTATUS as usize);
    c.csrs.set(CSR_MSTATUS as usize, ms & !(3 << 13));
    c.fregs[1] = 7;
    assert_eq!(c.exec_op_fp_exact(2, 1, 1, 0x79, 0), ILLEGAL);
    assert_eq!(c.exec_op_fp_exact(2, 1, 1, 0x01, 7), ILLEGAL);
    assert_eq!(c.fregs[2], 0);
}
