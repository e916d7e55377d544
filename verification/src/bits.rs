//! Bit-level facts behind the laws of the hart, the CSR file and the UART.

use vstd::prelude::*;

verus! {

/// Facts on shifts and masks, each over its own operands:
/// an arithmetic right shift is the logical one with the vacated top bits
/// copied from the sign bit (`x`, by `n` or `k` places); `y & 0x3F` is
/// `y % 64`; bit `c` of `m` tested through a one-bit mask; merging the
/// bits 1, 5, 9 of `val` into `mie`; and setting LSR bit 5 of `l` keeps bit 0.
pub(crate) proof fn lemma_bit_facts(
    x: u64, n: u64, k: u32, y: u64, m: u64, c: u64, mie: u64, val: u64, l: u8, p: u64, q: u64, z: u64, mip: u64, sv: u64,
    w: u64, j: u32, t: u64, v: u64,
)
    by (bit_vector)
    requires
        n < 64,
        k < 64,
        c < 64,
        j < 32,
        t < 32,
    ensures
        x < 0x8000_0000_0000_0000u64 ==> ((x as i64) >> n) as u64 == x >> n,
        x >= 0x8000_0000_0000_0000u64 ==> ((x as i64) >> n) as u64 == (x >> n) | !(0xFFFF_FFFF_FFFF_FFFFu64 >> n),
        x < 0x8000_0000_0000_0000u64 ==> ((x as i64) >> k) as u64 == x >> (k as u64),
        x >= 0x8000_0000_0000_0000u64 ==> ((x as i64) >> k) as u64 == (x >> (k as u64)) | !(0xFFFF_FFFF_FFFF_FFFFu64 >> (k as u64)),
        y & 0x3F == y % 64,
        (m & (1u64 << c) != 0) == ((m >> c) & 1 == 1),
        ((mie & !0x222u64) | (val & 0x222u64)) & !0x222u64 == mie & !0x222u64,
        ((mie & !0x222u64) | (val & 0x222u64)) & 0x222u64 == val & 0x222u64,
        (0x104u16 >> 10u16) & 3 != 3,
        (0x104u16 >> 8u16) & 3 == 1,
        (0x144u16 >> 10u16) & 3 != 3,
        (0x144u16 >> 8u16) & 3 == 1,
        (l | 0x20u8) & 1 == l & 1,
        ((1u64 << 63u64) | (c & 0x7FFF_FFFF_FFFF_FFFFu64)) == 0x8000_0000_0000_0000u64 + c,
        ((0u64 << 63u64) | (c & 0x7FFF_FFFF_FFFF_FFFFu64)) == c,
        (p >= 0x8000_0000_0000_0000u64) == (q >= 0x8000_0000_0000_0000u64) ==> (((p as i64) < (q as i64)) == (p < q)),
        (p >= 0x8000_0000_0000_0000u64) != (q >= 0x8000_0000_0000_0000u64)
            ==> (((p as i64) < (q as i64)) == (p >= 0x8000_0000_0000_0000u64)),
        (z & !1u64) & 1 == 0,
        (z & !1u64) | (z & 1) == z,
        z & !3u64 == z - z % 4,
        z & 3 == z % 4,
        (l | 0x20u8) & 0x20 != 0,
        (l & !1u8) & 1 == 0,
        ((mip & !2u64) | (sv & 2)) & !2u64 == mip & !2u64,
        ((mip & !2u64) | (sv & 2)) & 2 == sv & 2,
        ((mip & !0x1Fu64) | (sv & 0x1F)) & 0x1F == sv & 0x1F,
        (((mip & !0x1Fu64) | (sv & 0x1F)) >> 5u64) & 0x7 == (mip >> 5u64) & 0x7,
        ((mip & !0xE0u64) | ((sv & 0x7) << 5u64)) & 0x1F == mip & 0x1F,
        (((mip & !0xE0u64) | ((sv & 0x7) << 5u64)) >> 5u64) & 0x7 == sv & 0x7,
        y & 0x1F == y % 32,
        (w as u32) < 0x8000_0000u32 ==> ((w as i32) as i64 as u64) == (w as u32) as u64,
        (w as u32) >= 0x8000_0000u32 ==> ((w as i32) as i64 as u64) == ((w as u32) as u64) | 0xFFFF_FFFF_0000_0000u64,
        (w as u32) < 0x8000_0000u32 ==> (((w as i32) >> j) as i64 as u64) == ((w as u32) >> j) as u64,
        (w as u32) >= 0x8000_0000u32 ==> (((w as i32) >> j) as i64 as u64)
            == (((w as u32) >> j) as u64) | !(0xFFFF_FFFFu64 >> (j as u64)),
        (w as u32) < 0x8000_0000u32 ==> (((w as i32) >> t) as i64 as u64) == ((w as u32) >> (t as u32)) as u64,
        (w as u32) >= 0x8000_0000u32 ==> (((w as i32) >> t) as i64 as u64)
            == (((w as u32) >> (t as u32)) as u64) | !(0xFFFF_FFFFu64 >> t),
        (v as u8) < 0x80u8 ==> (((v as u8) as i8) as i64 as u64) == (v as u8) as u64,
        (v as u8) >= 0x80u8 ==> (((v as u8) as i8) as i64 as u64) == ((v as u8) as u64) | 0xFFFF_FFFF_FFFF_FF00u64,
        (v as u16) < 0x8000u16 ==> (((v as u16) as i16) as i64 as u64) == (v as u16) as u64,
        (v as u16) >= 0x8000u16 ==> (((v as u16) as i16) as i64 as u64) == ((v as u16) as u64) | 0xFFFF_FFFF_FFFF_0000u64,
        (v as u32) < 0x8000_0000u32 ==> (((v as u32) as i32) as i64 as u64) == (v as u32) as u64,
        (v as u32) >= 0x8000_0000u32 ==> (((v as u32) as i32) as i64 as u64) == ((v as u32) as u64) | 0xFFFF_FFFF_0000_0000u64,
{
}

} // verus!
