use riscv_vm::cpu::fp_bits::{
    box_f32_bits, canonical_f32_bits, canonical_f64_bits, fclass_f32_bits, fclass_f64_bits, fsgnj_f32_bits,
    fsgnj_f64_bits, is_nan_f32_bits, is_snan_f32_bits, is_snan_f64_bits, unbox_f32_bits, CANONICAL_NAN_F32,
    CANONICAL_NAN_F64, RM_DYN, RM_RTZ,
};
use riscv_vm::cpu::hart::Cpu;

#[test]
fn nan_boxing() {
    let boxed = box_f32_bits(1.5f32.to_bits());
    assert_eq!(boxed >> 32, 0xFFFF_FFFF);
    assert_eq!(f32::from_bits(unbox_f32_bits(boxed)), 1.5);
    // An improperly boxed value reads as the canonical NaN.
    assert_eq!(unbox_f32_bits(1.5f64.to_bits()), CANONICAL_NAN_F32);
}

#[test]
fn nan_recognition_and_canonical_form() {
    assert!(is_nan_f32_bits(f32::NAN.to_bits()));
    assert!(!is_nan_f32_bits(f32::INFINITY.to_bits()));
    assert!(is_snan_f32_bits(0x7F80_0001));
    assert!(!is_snan_f32_bits(CANONICAL_NAN_F32));
    assert!(is_snan_f64_bits(0x7FF0_0000_0000_0001));
    assert_eq!(canonical_f32_bits(0xFFC1_2345), CANONICAL_NAN_F32);
    assert_eq!(canonical_f32_bits(2.0f32.to_bits()), 2.0f32.to_bits());
    assert_eq!(canonical_f64_bits(0x7FF0_0000_0000_0001), CANONICAL_NAN_F64);
}

#[test]
fn sign_injection() {
    let a = 1.5f32.to_bits();
    let b = (-2.0f32).to_bits();
    assert_eq!(f32::from_bits(fsgnj_f32_bits(a, b, 0)), -1.5);
    assert_eq!(f32::from_bits(fsgnj_f32_bits(a, b, 1)), 1.5);
    assert_eq!(f32::from_bits(fsgnj_f32_bits((-1.5f32).to_bits(), b, 2)), 1.5);
    assert_eq!(f64::from_bits(fsgnj_f64_bits(3.0f64.to_bits(), (-1.0f64).to_bits(), 0)), -3.0);
}

#[test]
fn classification() {
    assert_eq!(fclass_f32_bits(f32::NEG_INFINITY.to_bits()), 1 << 0);
    assert_eq!(fclass_f32_bits((-1.0f32).to_bits()), 1 << 1);
    assert_eq!(fclass_f32_bits((-1e-40f32).to_bits()), 1 << 2);
    assert_eq!(fclass_f32_bits((-0.0f32).to_bits()), 1 << 3);
    assert_eq!(fclass_f32_bits(0.0f32.to_bits()), 1 << 4);
    assert_eq!(fclass_f32_bits(1e-40f32.to_bits()), 1 << 5);
    assert_eq!(fclass_f32_bits(1.0f32.to_bits()), 1 << 6);
    assert_eq!(fclass_f32_bits(f32::INFINITY.to_bits()), 1 << 7);
    assert_eq!(fclass_f32_bits(0x7F80_0001), 1 << 8);
    assert_eq!(fclass_f32_bits(f32::NAN.to_bits()), 1 << 9);
    assert_eq!(fclass_f64_bits(f64::MIN_POSITIVE.to_bits()), 1 << 6);
    assert_eq!(fclass_f64_bits(5e-324f64.to_bits()), 1 << 5);
    assert_eq!(fclass_f64_bits(f64::NAN.to_bits()), 1 << 9);
}

#[test]
fn fp_state_in_mstatus_and_fcsr() {
    let mut cpu = Cpu::new(0x8000_0000, 0);
    // A new hart has the FP unit usable, in its Initial state.
    assert!(cpu.fpu_enabled());
    assert!(cpu.use_blocks);
    assert_eq!((cpu.export_csrs()[&0x300] >> 13) & 3, 1);
    cpu.set_fs_dirty();
    assert!(cpu.fpu_enabled());
    assert_eq!((cpu.export_csrs()[&0x300] >> 13) & 3, 3);
    assert_eq!(cpu.effective_rm(RM_RTZ), RM_RTZ);
    assert_eq!(cpu.effective_rm(RM_DYN), 0);
    cpu.accrue_fflags(0x21);
    cpu.accrue_fflags(0x02);
    let csrs = cpu.export_csrs();
    assert_eq!(csrs.get(&0x003), Some(&0x03));
}

#[test]
fn test_nan_boxing() {
    let boxed = box_f32_bits(1.5f32.to_bits());
    assert_eq!(boxed >> 32, 0xFFFF_FFFF);
    assert_eq!(f32::from_bits(unbox_f32_bits(boxed)), 1.5);
    // Improperly boxed value reads as canonical NaN
    assert!(f32::from_bits(unbox_f32_bits(1.5f64.to_bits())).is_nan());
}

#[test]
fn test_fclass() {
    assert_eq!(fclass_f32_bits(f32::NEG_INFINITY.to_bits()), 1 << 0);
    assert_eq!(fclass_f32_bits((-1.0f32).to_bits()), 1 << 1);
    assert_eq!(fclass_f32_bits((-0.0f32).to_bits()), 1 << 3);
    assert_eq!(fclass_f32_bits(0.0f32.to_bits()), 1 << 4);
    assert_eq!(fclass_f32_bits(1.0f32.to_bits()), 1 << 6);
    assert_eq!(fclass_f32_bits(f32::INFINITY.to_bits()), 1 << 7);
    assert_eq!(fclass_f64_bits(CANONICAL_NAN_F64), 1 << 9);
}

#[test]
fn test_sign_injection() {
    let fsgnj_s = |a: f32, b: f32, mode: u32| f32::from_bits(fsgnj_f32_bits(a.to_bits(), b.to_bits(), mode));
    let fsgnj_d = |a: f64, b: f64, mode: u32| f64::from_bits(fsgnj_f64_bits(a.to_bits(), b.to_bits(), mode));
    assert_eq!(fsgnj_s(1.5, -2.0, 0), -1.5); // FSGNJ
    assert_eq!(fsgnj_s(1.5, -2.0, 1), 1.5); // FSGNJN
    assert_eq!(fsgnj_s(-1.5, -2.0, 2), 1.5); // FSGNJX
    assert_eq!(fsgnj_d(-3.0, 1.0, 0), 3.0);
}
