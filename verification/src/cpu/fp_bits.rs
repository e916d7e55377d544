//! Bit-level parts of the F/D extensions: NaN boxing, NaN recognition and
//! canonicalisation, sign injection and FCLASS, on IEEE-754 bit patterns.

use vstd::prelude::*;

verus! {

/// fflags: inexact.
pub const FFLAG_NX: u32 = 1;
/// fflags: underflow.
pub const FFLAG_UF: u32 = 2;
/// fflags: overflow.
pub const FFLAG_OF: u32 = 4;
/// fflags: divide by zero.
pub const FFLAG_DZ: u32 = 8;
/// fflags: invalid operation.
pub const FFLAG_NV: u32 = 16;

/// Canonical single-precision NaN.
pub const CANONICAL_NAN_F32: u32 = 0x7FC0_0000;
/// Canonical double-precision NaN.
pub const CANONICAL_NAN_F64: u64 = 0x7FF8_0000_0000_0000;

/// Rounding modes (rm field / frm).
pub const RM_RNE: u32 = 0;
pub const RM_RTZ: u32 = 1;
pub const RM_RDN: u32 = 2;
pub const RM_RUP: u32 = 3;
pub const RM_RMM: u32 = 4;
pub const RM_DYN: u32 = 7;

/// The exponent field of a single is all ones.
pub open spec fn exp_max32(b: u32) -> bool {
    b & 0x7F80_0000 == 0x7F80_0000
}

/// The fraction field of a single.
pub open spec fn frac32(b: u32) -> u32 {
    b & 0x007F_FFFF
}

pub open spec fn exp_max64(b: u64) -> bool {
    b & 0x7FF0_0000_0000_0000 == 0x7FF0_0000_0000_0000
}

pub open spec fn frac64(b: u64) -> u64 {
    b & 0x000F_FFFF_FFFF_FFFF
}

/// The single with bits `b` is a NaN.
pub open spec fn is_nan32(b: u32) -> bool {
    exp_max32(b) && frac32(b) != 0
}

/// The double with bits `b` is a NaN.
pub open spec fn is_nan64(b: u64) -> bool {
    exp_max64(b) && frac64(b) != 0
}

/// NaN-boxed single: upper 32 bits all ones.
pub fn box_f32_bits(bits: u32) -> (r: u64)
    ensures
        r == 0xFFFF_FFFF_0000_0000u64 | bits as u64,
{
    0xFFFF_FFFF_0000_0000u64 | bits as u64
}

/// The single held in a 64-bit FP register: its low word when properly
/// boxed, else the canonical NaN.
pub fn unbox_f32_bits(reg: u64) -> (r: u32)
    ensures
        r == unboxed(reg),
{
    if reg >> 32u64 == 0xFFFF_FFFF { reg as u32 } else { CANONICAL_NAN_F32 }
}

/// Whether the single with bits `b` is a NaN.
pub fn is_nan_f32_bits(b: u32) -> (r: bool)
    ensures
        r == is_nan32(b),
{
    (b & 0x7F80_0000) == 0x7F80_0000 && (b & 0x007F_FFFF) != 0
}

/// Whether the double with bits `b` is a NaN.
pub fn is_nan_f64_bits(b: u64) -> (r: bool)
    ensures
        r == is_nan64(b),
{
    (b & 0x7FF0_0000_0000_0000) == 0x7FF0_0000_0000_0000 && (b & 0x000F_FFFF_FFFF_FFFF) != 0
}

/// Signaling NaN: a NaN whose quiet bit is clear.
pub fn is_snan_f32_bits(b: u32) -> (r: bool)
    ensures
        r == (is_nan32(b) && b & 0x0040_0000 == 0),
{
    is_nan_f32_bits(b) && (b & 0x0040_0000) == 0
}

pub fn is_snan_f64_bits(b: u64) -> (r: bool)
    ensures
        r == (is_nan64(b) && b & 0x0008_0000_0000_0000 == 0),
{
    is_nan_f64_bits(b) && (b & 0x0008_0000_0000_0000) == 0
}

/// Every NaN becomes the canonical NaN; other values are kept.
pub fn canonical_f32_bits(b: u32) -> (r: u32)
    ensures
        r == (if is_nan32(b) { CANONICAL_NAN_F32 } else { b }),
{
    if is_nan_f32_bits(b) { CANONICAL_NAN_F32 } else { b }
}

pub fn canonical_f64_bits(b: u64) -> (r: u64)
    ensures
        r == (if is_nan64(b) { CANONICAL_NAN_F64 } else { b }),
{
    if is_nan_f64_bits(b) { CANONICAL_NAN_F64 } else { b }
}

/// Sign injection on singles: FSGNJ (mode 0) takes b's sign, FSGNJN (1)
/// its opposite, FSGNJX (other) the xor of both signs.
pub open spec fn fsgnj32(a: u32, b: u32, mode: u32) -> u32 {
    let bsign = b & 0x8000_0000;
    if mode == 0 {
        (a & 0x7FFF_FFFF) | bsign
    } else if mode == 1 {
        (a & 0x7FFF_FFFF) | (bsign ^ 0x8000_0000)
    } else {
        a ^ bsign
    }
}

pub open spec fn fsgnj64(a: u64, b: u64, mode: u32) -> u64 {
    let bsign = b & 0x8000_0000_0000_0000;
    if mode == 0 {
        (a & 0x7FFF_FFFF_FFFF_FFFF) | bsign
    } else if mode == 1 {
        (a & 0x7FFF_FFFF_FFFF_FFFF) | (bsign ^ 0x8000_0000_0000_0000)
    } else {
        a ^ bsign
    }
}

pub fn fsgnj_f32_bits(a: u32, b: u32, mode: u32) -> (r: u32)
    ensures
        r == fsgnj32(a, b, mode),
{
    let bsign = b & 0x8000_0000;
    if mode == 0 {
        (a & 0x7FFF_FFFF) | bsign
    } else if mode == 1 {
        (a & 0x7FFF_FFFF) | (bsign ^ 0x8000_0000)
    } else {
        a ^ bsign
    }
}

pub fn fsgnj_f64_bits(a: u64, b: u64, mode: u32) -> (r: u64)
    ensures
        r == fsgnj64(a, b, mode),
{
    let bsign = b & 0x8000_0000_0000_0000;
    if mode == 0 {
        (a & 0x7FFF_FFFF_FFFF_FFFF) | bsign
    } else if mode == 1 {
        (a & 0x7FFF_FFFF_FFFF_FFFF) | (bsign ^ 0x8000_0000_0000_0000)
    } else {
        a ^ bsign
    }
}

/// FCLASS of a single: one bit for -inf, negative normal, negative
/// subnormal, -0, +0, positive subnormal, positive normal, +inf,
/// signaling NaN, quiet NaN (bits 0 to 9).
pub open spec fn fclass32(b: u32) -> u64 {
    let neg = b >> 31u32 == 1;
    let exp_zero = b & 0x7F80_0000 == 0;
    if is_nan32(b) {
        if b & 0x0040_0000 == 0 { 0x100 } else { 0x200 }
    } else if exp_max32(b) {
        if neg { 0x001 } else { 0x080 }
    } else if exp_zero && frac32(b) == 0 {
        if neg { 0x008 } else { 0x010 }
    } else if exp_zero {
        if neg { 0x004 } else { 0x020 }
    } else if neg {
        0x002
    } else {
        0x040
    }
}

/// FCLASS of a double (same bits as for a single).
pub open spec fn fclass64(b: u64) -> u64 {
    let neg = b >> 63u64 == 1;
    let exp_zero = b & 0x7FF0_0000_0000_0000 == 0;
    if is_nan64(b) {
        if b & 0x0008_0000_0000_0000 == 0 { 0x100 } else { 0x200 }
    } else if exp_max64(b) {
        if neg { 0x001 } else { 0x080 }
    } else if exp_zero && frac64(b) == 0 {
        if neg { 0x008 } else { 0x010 }
    } else if exp_zero {
        if neg { 0x004 } else { 0x020 }
    } else if neg {
        0x002
    } else {
        0x040
    }
}

pub fn fclass_f32_bits(b: u32) -> (r: u64)
    ensures
        r == fclass32(b),
{
    let neg = b >> 31u32 == 1;
    let exp_zero = b & 0x7F80_0000 == 0;
    if is_nan_f32_bits(b) {
        if b & 0x0040_0000 == 0 { 0x100 } else { 0x200 }
    } else if (b & 0x7F80_0000) == 0x7F80_0000 {
        if neg { 0x001 } else { 0x080 }
    } else if exp_zero && (b & 0x007F_FFFF) == 0 {
        if neg { 0x008 } else { 0x010 }
    } else if exp_zero {
        if neg { 0x004 } else { 0x020 }
    } else if neg {
        0x002
    } else {
        0x040
    }
}

pub fn fclass_f64_bits(b: u64) -> (r: u64)
    ensures
        r == fclass64(b),
{
    let neg = b >> 63u64 == 1;
    let exp_zero = b & 0x7FF0_0000_0000_0000 == 0;
    if is_nan_f64_bits(b) {
        if b & 0x0008_0000_0000_0000 == 0 { 0x100 } else { 0x200 }
    } else if (b & 0x7FF0_0000_0000_0000) == 0x7FF0_0000_0000_0000 {
        if neg { 0x001 } else { 0x080 }
    } else if exp_zero && (b & 0x000F_FFFF_FFFF_FFFF) == 0 {
        if neg { 0x008 } else { 0x010 }
    } else if exp_zero {
        if neg { 0x004 } else { 0x020 }
    } else if neg {
        0x002
    } else {
        0x040
    }
}

/// One of the ten class bits.
pub open spec fn one_class(c: u64) -> bool {
    c == 0x001 || c == 0x002 || c == 0x004 || c == 0x008 || c == 0x010 || c == 0x020 || c == 0x040 || c == 0x080
        || c == 0x100 || c == 0x200
}

/// FCLASS sets exactly one of its ten bits, for every single and double.
pub proof fn lemma_fclass_one_hot(s: u32, d: u64)
    ensures
        one_class(fclass32(s)),
        one_class(fclass64(d)),
{
}

/// The canonical NaNs are quiet NaNs.
pub proof fn lemma_canonical_nan_quiet()
    ensures
        is_nan32(CANONICAL_NAN_F32),
        CANONICAL_NAN_F32 & 0x0040_0000 != 0,
        is_nan64(CANONICAL_NAN_F64),
        CANONICAL_NAN_F64 & 0x0008_0000_0000_0000 != 0,
{
    assert(0x7FC0_0000u32 & 0x7F80_0000 == 0x7F80_0000 && 0x7FC0_0000u32 & 0x007F_FFFF != 0
        && 0x7FC0_0000u32 & 0x0040_0000 != 0
        && 0x7FF8_0000_0000_0000u64 & 0x7FF0_0000_0000_0000 == 0x7FF0_0000_0000_0000
        && 0x7FF8_0000_0000_0000u64 & 0x000F_FFFF_FFFF_FFFF != 0
        && 0x7FF8_0000_0000_0000u64 & 0x0008_0000_0000_0000 != 0) by (bit_vector);
}

/// The single held in a 64-bit register (the canonical NaN unless boxed).
pub open spec fn unboxed(reg: u64) -> u32 {
    if reg >> 32u64 == 0xFFFF_FFFF { reg as u32 } else { CANONICAL_NAN_F32 }
}

/// A boxed single unboxes to itself.
pub proof fn lemma_box_roundtrip(b: u32)
    ensures
        unboxed(0xFFFF_FFFF_0000_0000u64 | b as u64) == b,
{
    assert((0xFFFF_FFFF_0000_0000u64 | b as u64) >> 32u64 == 0xFFFF_FFFF
        && (0xFFFF_FFFF_0000_0000u64 | b as u64) as u32 == b) by (bit_vector);
}

} // verus!
