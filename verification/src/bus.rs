//! The system bus as the CPU sees it: sized physical reads and writes, and
//! the load/store, fetch and atomic memory operations built on them.
//!
//! Reads take `&mut self` because a device register may change when it is
//! read (a UART receive buffer, a PLIC claim).

use vstd::prelude::*;
use crate::cpu::types::Trap;

pub mod system;

pub use self::system::{BusState, SystemBus};
pub use crate::dram::DRAM_BASE;

verus! {

/// Base address of the test finisher window.
pub const TEST_FINISHER_BASE: u64 = 0x0010_0000;
/// Size of the test finisher window.
pub const TEST_FINISHER_SIZE: u64 = 0x1000;
/// Base address of the first VirtIO MMIO window.
pub const VIRTIO_BASE: u64 = 0x1000_1000;
/// Size of each VirtIO MMIO window.
pub const VIRTIO_STRIDE: u64 = 0x1000;

/// Sign-extension of the low 32 bits of `v` to 64 bits.
pub open spec fn sext32(v: u64) -> u64 {
    (v as u32) as i32 as i64 as u64
}

/// The low `n` bytes of `v` (n = 1, 2, 4 or 8), zero-extended.
pub open spec fn low_bytes(v: u64, n: nat) -> u64 {
    if n == 1 {
        (v as u8) as u64
    } else if n == 2 {
        (v as u16) as u64
    } else if n == 4 {
        (v as u32) as u64
    } else {
        v
    }
}

/// A supported access width.
pub open spec fn width_ok(n: u64) -> bool {
    n == 1 || n == 2 || n == 4 || n == 8
}

/// Bytes of a word (`is_word`) or doubleword access.
pub open spec fn access_bytes(is_word: bool) -> nat {
    if is_word { 4 } else { 8 }
}

/// An atomic read-modify-write of a word (`is_word`, sign-extended old
/// value) or doubleword, given the read's outcome and the write's: the old
/// value is returned and `new_value(old)` written back; a failing read or
/// write ends it with that trap.
pub open spec fn amo_outcome<B>(read: (Result<u64, Trap>, B), write: spec_fn(B, u64) -> (Result<(), Trap>, B),
    is_word: bool, new_value: spec_fn(u64) -> u64) -> (Result<u64, Trap>, B)
{
    match read {
        (Err(e), b1) => (Err(e), b1),
        (Ok(raw), b1) => {
            let old = if is_word { sext32(raw) } else { raw };
            match write(b1, low_bytes(new_value(old), access_bytes(is_word))) {
                (Err(e), b2) => (Err(e), b2),
                (Ok(_), b2) => (Ok(old), b2),
            }
        },
    }
}

/// An instruction-fetch fault for a data-side fault of a fetch.
pub open spec fn fetch_fault(t: Trap) -> Trap {
    match t {
        Trap::LoadAccessFault(a) => Trap::InstructionAccessFault(a),
        Trap::LoadAddressMisaligned(a) => Trap::InstructionAddressMisaligned(a),
        _ => t,
    }
}

/// A compare-and-swap, given the read's outcome and the write's: when the
/// word (low 32 bits, `is_word`) or doubleword read equals `expected`,
/// `new_value` is written; the flag tells whether it was, with the old value
/// (sign-extended for a word).
pub open spec fn cas_outcome<B>(read: (Result<u64, Trap>, B), write: spec_fn(B, u64) -> (Result<(), Trap>, B),
    expected: u64, new_value: u64, is_word: bool) -> (Result<(bool, u64), Trap>, B)
{
    match read {
        (Err(e), b1) => (Err(e), b1),
        (Ok(raw), b1) => {
            let hit = if is_word { (raw as u32) == (expected as u32) } else { raw == expected };
            let old = if is_word { sext32(raw) } else { raw };
            if hit {
                match write(b1, low_bytes(new_value, access_bytes(is_word))) {
                    (Err(e), b2) => (Err(e), b2),
                    (Ok(_), b2) => (Ok((true, old)), b2),
                }
            } else {
                (Ok((false, old)), b1)
            }
        },
    }
}

/// A zero-extended word truncates back to itself; a sign-extended one too.
proof fn lemma_word_extend(x: u32)
    by (bit_vector)
    ensures
        (x as u64) as i32 == x as i32,
        (((x as i32) as i64) as u64) as u32 == x,
{
}

/// Text of the fatal trap for an access width the bus does not support.
#[verifier::external_body]
fn unsupported_size(kind: &str, size: u64) -> String {
    format!("Unsupported bus {} size: {}", kind, size)
}

/// Physical memory and devices as seen by a hart.
pub trait Bus: Sized {
    /// What the bus's accesses read and change, as a mathematical value.
    type State;

    /// What the bus keeps true between accesses; a verified bus states it.
    closed spec fn inv(&self) -> bool {
        true
    }

    /// The bus's state. A verified bus states it; by default nothing is known of it.
    closed spec fn state(&self) -> Self::State {
        vstd::pervasive::arbitrary()
    }

    /// What a read of `n` bytes at `addr` returns in state `s`, and the state
    /// after it. A verified bus states it; by default nothing is known of it.
    closed spec fn read_outcome(s: Self::State, addr: u64, n: nat) -> (Result<u64, Trap>, Self::State) {
        vstd::pervasive::arbitrary()
    }

    /// What a write of `val` (its low `n` bytes) at `addr` returns in state
    /// `s`, and the state after it. A verified bus states it; by default
    /// nothing is known of it.
    closed spec fn write_outcome(s: Self::State, addr: u64, n: nat, val: u64) -> (Result<(), Trap>, Self::State) {
        vstd::pervasive::arbitrary()
    }

    fn read8(&mut self, addr: u64) -> (r: Result<u8, Trap>)
        requires
            old(self).inv(),
        ensures
            final(self).inv(),
            match Self::read_outcome(old(self).state(), addr, 1) {
                (Ok(v), b) => r == Ok::<u8, Trap>(v as u8) && final(self).state() == b,
                (Err(e), b) => r == Err::<u8, Trap>(e) && final(self).state() == b,
            };

    fn read16(&mut self, addr: u64) -> (r: Result<u16, Trap>)
        requires
            old(self).inv(),
        ensures
            final(self).inv(),
            match Self::read_outcome(old(self).state(), addr, 2) {
                (Ok(v), b) => r == Ok::<u16, Trap>(v as u16) && final(self).state() == b,
                (Err(e), b) => r == Err::<u16, Trap>(e) && final(self).state() == b,
            };

    fn read32(&mut self, addr: u64) -> (r: Result<u32, Trap>)
        requires
            old(self).inv(),
        ensures
            final(self).inv(),
            match Self::read_outcome(old(self).state(), addr, 4) {
                (Ok(v), b) => r == Ok::<u32, Trap>(v as u32) && final(self).state() == b,
                (Err(e), b) => r == Err::<u32, Trap>(e) && final(self).state() == b,
            };

    fn read64(&mut self, addr: u64) -> (r: Result<u64, Trap>)
        requires
            old(self).inv(),
        ensures
            final(self).inv(),
            (r, final(self).state()) == Self::read_outcome(old(self).state(), addr, 8);

    fn write8(&mut self, addr: u64, val: u8) -> (r: Result<(), Trap>)
        requires
            old(self).inv(),
        ensures
            final(self).inv(),
            (r, final(self).state()) == Self::write_outcome(old(self).state(), addr, 1, val as u64);

    fn write16(&mut self, addr: u64, val: u16) -> (r: Result<(), Trap>)
        requires
            old(self).inv(),
        ensures
            final(self).inv(),
            (r, final(self).state()) == Self::write_outcome(old(self).state(), addr, 2, val as u64);

    fn write32(&mut self, addr: u64, val: u32) -> (r: Result<(), Trap>)
        requires
            old(self).inv(),
        ensures
            final(self).inv(),
            (r, final(self).state()) == Self::write_outcome(old(self).state(), addr, 4, val as u64);

    fn write64(&mut self, addr: u64, val: u64) -> (r: Result<(), Trap>)
        requires
            old(self).inv(),
        ensures
            final(self).inv(),
            (r, final(self).state()) == Self::write_outcome(old(self).state(), addr, 8, val);

    /// Load of `size` bytes, zero-extended (used by page-table walks).
    fn load(&mut self, addr: u64, size: u64) -> (r: Result<u64, Trap>)
        requires
            old(self).inv(),
        ensures
            final(self).inv(),
            width_ok(size) ==> match Self::read_outcome(old(self).state(), addr, size as nat) {
                (Ok(v), b) => r == Ok::<u64, Trap>(low_bytes(v, size as nat)) && final(self).state() == b,
                (Err(e), b) => r == Err::<u64, Trap>(e) && final(self).state() == b,
            },
            !width_ok(size) ==> (r matches Err(Trap::Fatal(_))) && final(self).state() == old(self).state(),
    {
        if size == 1 {
            match self.read8(addr) {
                Ok(v) => Ok(v as u64),
                Err(e) => Err(e),
            }
        } else if size == 2 {
            match self.read16(addr) {
                Ok(v) => Ok(v as u64),
                Err(e) => Err(e),
            }
        } else if size == 4 {
            match self.read32(addr) {
                Ok(v) => Ok(v as u64),
                Err(e) => Err(e),
            }
        } else if size == 8 {
            self.read64(addr)
        } else {
            Err(Trap::Fatal(unsupported_size("load", size)))
        }
    }

    /// Store of the low `size` bytes of `value` (used for page-table A/D updates).
    fn store(&mut self, addr: u64, size: u64, value: u64) -> (r: Result<(), Trap>)
        requires
            old(self).inv(),
        ensures
            final(self).inv(),
            width_ok(size) ==> (r, final(self).state()) == Self::write_outcome(old(self).state(), addr, size as nat, low_bytes(value, size as nat)),
            !width_ok(size) ==> (r matches Err(Trap::Fatal(_))) && final(self).state() == old(self).state(),
    {
        if size == 1 {
            self.write8(addr, value as u8)
        } else if size == 2 {
            self.write16(addr, value as u16)
        } else if size == 4 {
            self.write32(addr, value as u32)
        } else if size == 8 {
            self.write64(addr, value)
        } else {
            Err(Trap::Fatal(unsupported_size("store", size)))
        }
    }

    /// Instruction fetch of an aligned word; data-side faults become
    /// instruction faults.
    fn fetch_u32(&mut self, addr: u64) -> (r: Result<u32, Trap>)
        requires
            old(self).inv(),
        ensures
            final(self).inv(),
            addr % 4 != 0 ==> r == Err::<u32, Trap>(Trap::InstructionAddressMisaligned(addr)) && final(self).state() == old(self).state(),
            addr % 4 == 0 ==> match Self::read_outcome(old(self).state(), addr, 4) {
                (Ok(v), b) => r == Ok::<u32, Trap>(v as u32) && final(self).state() == b,
                (Err(e), b) => r == Err::<u32, Trap>(fetch_fault(e)) && final(self).state() == b,
            },
    {
        if addr % 4 != 0 {
            return Err(Trap::InstructionAddressMisaligned(addr));
        }
        match self.read32(addr) {
            Ok(v) => Ok(v),
            Err(Trap::LoadAccessFault(a)) => Err(Trap::InstructionAccessFault(a)),
            Err(Trap::LoadAddressMisaligned(a)) => Err(Trap::InstructionAddressMisaligned(a)),
            Err(e) => Err(e),
        }
    }

    /// Pending interrupt bits (MIP) from hardware sources, as hart 0 sees
    /// them; none by default.
    fn poll_interrupts(&mut self) -> (r: u64)
        requires
            old(self).inv(),
        ensures
            final(self).inv(),
    {
        0
    }

    /// Pending interrupt bits (MIP) for one hart; none by default.
    fn poll_interrupts_for_hart(&mut self, _hart_id: usize) -> (r: u64)
        requires
            old(self).inv(),
        ensures
            final(self).inv(),
    {
        0
    }

    /// AMOSWAP: store `value`, return the old value.
    fn atomic_swap(&mut self, addr: u64, value: u64, is_word: bool) -> (r: Result<u64, Trap>)
        requires
            old(self).inv(),
        ensures
            final(self).inv(),
            (r, final(self).state()) == amo_outcome(Self::read_outcome(old(self).state(), addr, access_bytes(is_word)),
                |s: Self::State, v: u64| Self::write_outcome(s, addr, access_bytes(is_word), v), is_word, |o: u64| value),
    {
        if is_word {
            let old = self.read32(addr)? as i32 as i64 as u64;
            self.write32(addr, value as u32)?;
            Ok(old)
        } else {
            let old = self.read64(addr)?;
            self.write64(addr, value)?;
            Ok(old)
        }
    }

    /// AMOADD: store old + `value` (wrapping), return the old value.
    fn atomic_add(&mut self, addr: u64, value: u64, is_word: bool) -> (r: Result<u64, Trap>)
        requires
            old(self).inv(),
        ensures
            final(self).inv(),
            (r, final(self).state()) == amo_outcome(Self::read_outcome(old(self).state(), addr, access_bytes(is_word)),
                |s: Self::State, v: u64| Self::write_outcome(s, addr, access_bytes(is_word), v), is_word, |o: u64| vstd::wrapping::u64_specs::wrapping_add(o, value)),
    {
        if is_word {
            let old = self.read32(addr)? as i32 as i64 as u64;
            self.write32(addr, old.wrapping_add(value) as u32)?;
            Ok(old)
        } else {
            let old = self.read64(addr)?;
            self.write64(addr, old.wrapping_add(value))?;
            Ok(old)
        }
    }

    /// AMOAND: store old & `value`, return the old value.
    fn atomic_and(&mut self, addr: u64, value: u64, is_word: bool) -> (r: Result<u64, Trap>)
        requires
            old(self).inv(),
        ensures
            final(self).inv(),
            (r, final(self).state()) == amo_outcome(Self::read_outcome(old(self).state(), addr, access_bytes(is_word)),
                |s: Self::State, v: u64| Self::write_outcome(s, addr, access_bytes(is_word), v), is_word, |o: u64| o & value),
    {
        if is_word {
            let old = self.read32(addr)? as i32 as i64 as u64;
            self.write32(addr, (old & value) as u32)?;
            Ok(old)
        } else {
            let old = self.read64(addr)?;
            self.write64(addr, old & value)?;
            Ok(old)
        }
    }

    /// AMOOR: store old | `value`, return the old value.
    fn atomic_or(&mut self, addr: u64, value: u64, is_word: bool) -> (r: Result<u64, Trap>)
        requires
            old(self).inv(),
        ensures
            final(self).inv(),
            (r, final(self).state()) == amo_outcome(Self::read_outcome(old(self).state(), addr, access_bytes(is_word)),
                |s: Self::State, v: u64| Self::write_outcome(s, addr, access_bytes(is_word), v), is_word, |o: u64| o | value),
    {
        if is_word {
            let old = self.read32(addr)? as i32 as i64 as u64;
            self.write32(addr, (old | value) as u32)?;
            Ok(old)
        } else {
            let old = self.read64(addr)?;
            self.write64(addr, old | value)?;
            Ok(old)
        }
    }

    /// AMOXOR: store old ^ `value`, return the old value.
    fn atomic_xor(&mut self, addr: u64, value: u64, is_word: bool) -> (r: Result<u64, Trap>)
        requires
            old(self).inv(),
        ensures
            final(self).inv(),
            (r, final(self).state()) == amo_outcome(Self::read_outcome(old(self).state(), addr, access_bytes(is_word)),
                |s: Self::State, v: u64| Self::write_outcome(s, addr, access_bytes(is_word), v), is_word, |o: u64| o ^ value),
    {
        if is_word {
            let old = self.read32(addr)? as i32 as i64 as u64;
            self.write32(addr, (old ^ value) as u32)?;
            Ok(old)
        } else {
            let old = self.read64(addr)?;
            self.write64(addr, old ^ value)?;
            Ok(old)
        }
    }

    /// AMOMIN: store the signed minimum of old and `value`, return the old value.
    fn atomic_min(&mut self, addr: u64, value: u64, is_word: bool) -> (r: Result<u64, Trap>)
        requires
            old(self).inv(),
        ensures
            final(self).inv(),
            (r, final(self).state()) == amo_outcome(Self::read_outcome(old(self).state(), addr, access_bytes(is_word)),
                |s: Self::State, v: u64| Self::write_outcome(s, addr, access_bytes(is_word), v), is_word, |o: u64| if (o as i64) < (value as i64) { o } else { value }),
    {
        if is_word {
            let old = self.read32(addr)? as i32 as i64 as u64;
            let new = if (old as i64) < (value as i64) { old } else { value };
            self.write32(addr, new as u32)?;
            Ok(old)
        } else {
            let old = self.read64(addr)?;
            let new = if (old as i64) < (value as i64) { old } else { value };
            self.write64(addr, new)?;
            Ok(old)
        }
    }

    /// AMOMAX: store the signed maximum of old and `value`, return the old value.
    fn atomic_max(&mut self, addr: u64, value: u64, is_word: bool) -> (r: Result<u64, Trap>)
        requires
            old(self).inv(),
        ensures
            final(self).inv(),
            (r, final(self).state()) == amo_outcome(Self::read_outcome(old(self).state(), addr, access_bytes(is_word)),
                |s: Self::State, v: u64| Self::write_outcome(s, addr, access_bytes(is_word), v), is_word, |o: u64| if (o as i64) > (value as i64) { o } else { value }),
    {
        if is_word {
            let old = self.read32(addr)? as i32 as i64 as u64;
            let new = if (old as i64) > (value as i64) { old } else { value };
            self.write32(addr, new as u32)?;
            Ok(old)
        } else {
            let old = self.read64(addr)?;
            let new = if (old as i64) > (value as i64) { old } else { value };
            self.write64(addr, new)?;
            Ok(old)
        }
    }

    /// AMOMINU: store the unsigned minimum of old and `value` (of their low
    /// words for a word access), return the old value.
    fn atomic_minu(&mut self, addr: u64, value: u64, is_word: bool) -> (r: Result<u64, Trap>)
        requires
            old(self).inv(),
        ensures
            final(self).inv(),
            (r, final(self).state()) == amo_outcome(Self::read_outcome(old(self).state(), addr, access_bytes(is_word)),
                |s: Self::State, v: u64| Self::write_outcome(s, addr, access_bytes(is_word), v), is_word, |o: u64|
                if is_word {
                    if (o as u32) < (value as u32) { o } else { value }
                } else {
                    if o < value { o } else { value }
                }),
    {
        if is_word {
            let w = self.read32(addr)?;
            proof {
                lemma_word_extend(w);
            }
            let old = w as u64;
            let new = if old < (value as u32 as u64) { old } else { value };
            self.write32(addr, new as u32)?;
            Ok(old as i32 as i64 as u64)
        } else {
            let old = self.read64(addr)?;
            let new = if old < value { old } else { value };
            self.write64(addr, new)?;
            Ok(old)
        }
    }

    /// AMOMAXU: store the unsigned maximum of old and `value` (of their low
    /// words for a word access), return the old value.
    fn atomic_maxu(&mut self, addr: u64, value: u64, is_word: bool) -> (r: Result<u64, Trap>)
        requires
            old(self).inv(),
        ensures
            final(self).inv(),
            (r, final(self).state()) == amo_outcome(Self::read_outcome(old(self).state(), addr, access_bytes(is_word)),
                |s: Self::State, v: u64| Self::write_outcome(s, addr, access_bytes(is_word), v), is_word, |o: u64|
                if is_word {
                    if (o as u32) > (value as u32) { o } else { value }
                } else {
                    if o > value { o } else { value }
                }),
    {
        if is_word {
            let w = self.read32(addr)?;
            proof {
                lemma_word_extend(w);
            }
            let old = w as u64;
            let new = if old > (value as u32 as u64) { old } else { value };
            self.write32(addr, new as u32)?;
            Ok(old as i32 as i64 as u64)
        } else {
            let old = self.read64(addr)?;
            let new = if old > value { old } else { value };
            self.write64(addr, new)?;
            Ok(old)
        }
    }

    /// Compare-and-swap (for SC): (whether `new_value` was stored, old value).
    fn atomic_compare_exchange(&mut self, addr: u64, expected: u64, new_value: u64, is_word: bool) -> (r: Result<(bool, u64), Trap>)
        requires
            old(self).inv(),
        ensures
            final(self).inv(),
            (r, final(self).state()) == cas_outcome(Self::read_outcome(old(self).state(), addr, access_bytes(is_word)),
                |s: Self::State, v: u64| Self::write_outcome(s, addr, access_bytes(is_word), v), expected, new_value, is_word),
    {
        if is_word {
            let old = self.read32(addr)?;
            if old == expected as u32 {
                self.write32(addr, new_value as u32)?;
                Ok((true, old as i32 as i64 as u64))
            } else {
                Ok((false, old as i32 as i64 as u64))
            }
        } else {
            let old = self.read64(addr)?;
            if old == expected {
                self.write64(addr, new_value)?;
                Ok((true, old))
            } else {
                Ok((false, old))
            }
        }
    }
}

} // verus!
