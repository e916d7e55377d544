//! Guest DRAM: a flat little-endian byte store addressed by offsets from
//! its base, with bounds-checked loads, stores and atomic read-modify-write
//! operations.

use vstd::prelude::*;

verus! {

/// Physical address of the start of DRAM.
pub const DRAM_BASE: u64 = 0x8000_0000;

/// Error of a memory or device register access.
#[derive(Debug, Clone, Copy, PartialEq, Eq)]
pub enum MemoryError {
    /// Out-of-bounds memory access at the given offset.
    OutOfBounds(u64),
    /// Invalid or misaligned access at the given offset.
    InvalidAlignment(u64),
}

/// Byte `j` of `v` in little-endian order.
pub open spec fn le_byte(v: u64, j: int) -> u8 {
    ((v >> (8 * j) as u64) & 0xff) as u8
}

/// `d` with the `n` low-order bytes of `v` stored little-endian at `o`.
pub open spec fn write_le(d: Seq<u8>, o: int, v: u64, n: int) -> Seq<u8> {
    Seq::new(d.len(), |k: int| if o <= k < o + n { le_byte(v, k - o) } else { d[k] })
}

/// `d` with `src` copied in at `o`.
pub open spec fn write_slice(d: Seq<u8>, o: int, src: Seq<u8>) -> Seq<u8> {
    Seq::new(d.len(), |k: int| if o <= k < o + src.len() { src[k - o] } else { d[k] })
}

/// An access of `n` bytes at `offset` lies inside memory of `size` bytes.
pub open spec fn fits(offset: u64, n: nat, size: nat) -> bool {
    offset + n <= size
}

/// Abstract DRAM state.
pub struct DramView {
    pub base: u64,
    pub data: Seq<u8>,
}

/// Guest DRAM.
pub struct Dram {
    pub base: u64,
    data: Vec<u8>,
}

impl View for Dram {
    type V = DramView;

    closed spec fn view(&self) -> DramView {
        DramView { base: self.base, data: self.data@ }
    }
}

/// Result of a bounds-checked access: `OutOfBounds(offset)` unless it fits.
pub open spec fn checked<T>(offset: u64, n: nat, size: nat, v: T) -> Result<T, MemoryError> {
    if fits(offset, n, size) { Ok(v) } else { Err(MemoryError::OutOfBounds(offset)) }
}

/// Result of an aligned atomic access: misalignment is reported before bounds.
pub open spec fn checked_aligned<T>(offset: u64, n: nat, size: nat, v: T) -> Result<T, MemoryError> {
    if offset % (n as u64) != 0 {
        Err(MemoryError::InvalidAlignment(offset))
    } else {
        checked(offset, n, size, v)
    }
}

/// Little-endian 16-bit value at `o`.
pub open spec fn le16_at(d: Seq<u8>, o: int) -> u16 {
    (d[o] as u16) | ((d[o + 1] as u16) << 8u16)
}

/// Little-endian 32-bit value at `o`.
pub open spec fn le32_at(d: Seq<u8>, o: int) -> u32 {
    (d[o] as u32) | ((d[o + 1] as u32) << 8u32) | ((d[o + 2] as u32) << 16u32) | ((d[o + 3] as u32) << 24u32)
}

/// Little-endian 64-bit value at `o`.
pub open spec fn le64_at(d: Seq<u8>, o: int) -> u64 {
    (d[o] as u64) | ((d[o + 1] as u64) << 8u64) | ((d[o + 2] as u64) << 16u64) | ((d[o + 3] as u64) << 24u64)
        | ((d[o + 4] as u64) << 32u64) | ((d[o + 5] as u64) << 40u64) | ((d[o + 6] as u64) << 48u64)
        | ((d[o + 7] as u64) << 56u64)
}

/// The in-bounds 32-bit word at `offset`, or 0.
pub open spec fn word32(v: DramView, offset: u64) -> u32 {
    if fits(offset, 4, v.data.len()) { le32_at(v.data, offset as int) } else { 0 }
}

/// The in-bounds 64-bit word at `offset`, or 0.
pub open spec fn word64(v: DramView, offset: u64) -> u64 {
    if fits(offset, 8, v.data.len()) { le64_at(v.data, offset as int) } else { 0 }
}

/// DRAM with the `n` low bytes of `value` stored at `offset`.
pub open spec fn with_word(v: DramView, offset: u64, value: u64, n: int) -> DramView {
    DramView { data: write_le(v.data, offset as int, value, n), ..v }
}

/// Outcome of an aligned atomic read-modify-write of `n` bytes that stores
/// `new`: the old word on success with `new` stored, the error with DRAM
/// unchanged.
pub open spec fn rmw_outcome<T>(v: DramView, offset: u64, n: nat, old_word: T, new: u64, r: Result<T, MemoryError>, after: DramView) -> bool {
    &&& r == checked_aligned(offset, n, v.data.len(), old_word)
    &&& after == if r is Ok { with_word(v, offset, new, n as int) } else { v }
}

proof fn lemma_shift_zero(v: u64)
    ensures
        v >> 0u64 == v,
{
    assert(v >> 0u64 == v) by (bit_vector);
}

impl Dram {
    /// Zero-filled DRAM of `size` bytes at `base`.
    /// Guest physical address of the first byte.
    pub fn base(&self) -> (r: u64)
        ensures
            r == self@.base,
    {
        self.base
    }

    pub fn new(base: u64, size: usize) -> (r: Self)
        ensures
            r@.base == base,
            r@.data == Seq::new(size as nat, |i: int| 0u8),
    {
        let mut data: Vec<u8> = Vec::new();
        let mut i: usize = 0;
        while i < size
            invariant
                i <= size,
                data@ == Seq::new(i as nat, |k: int| 0u8),
            decreases size - i,
        {
            data.push(0);
            proof {
                assert(data@ =~= Seq::new((i + 1) as nat, |k: int| 0u8));
            }
            i = i + 1;
        }
        Dram { base, data }
    }

    /// Size in bytes.
    pub fn size(&self) -> (r: usize)
        ensures
            r == self@.data.len(),
    {
        self.data.len()
    }

    /// Offset of a physical address inside DRAM, if it lies there.
    pub fn offset(&self, addr: u64) -> (r: Option<usize>)
        ensures
            ({
                let off = vstd::wrapping::u64_specs::wrapping_sub(addr, self@.base);
                r == if off < self@.data.len() { Some(off as usize) } else { None::<usize> }
            }),
            self@.data.len() <= usize::MAX,
    {
        let off = addr.wrapping_sub(self.base);
        if off < self.data.len() as u64 {
            Some(off as usize)
        } else {
            None
        }
    }

    fn fits_at(&self, offset: u64, n: u64) -> (r: bool)
        ensures
            r == fits(offset, n as nat, self@.data.len()),
            r ==> offset + n <= usize::MAX,
    {
        offset <= self.data.len() as u64 && n <= self.data.len() as u64 - offset
    }

    fn write_le_bytes(&mut self, offset: u64, v: u64, n: u64)
        requires
            fits(offset, n as nat, old(self)@.data.len()),
            offset + n <= usize::MAX,
            n <= 8,
        ensures
            final(self)@ == with_word(old(self)@, offset, v, n as int),
    {
        let o = offset as usize;
        let mut i: u64 = 0;
        let mut rest: u64 = v;
        proof {
            lemma_shift_zero(v);
        }
        while i < n
            invariant
                i <= n <= 8,
                o == offset,
                o + n <= old(self)@.data.len(),
                o + n <= usize::MAX,
                self.base == old(self).base,
                self.data@.len() == old(self)@.data.len(),
                rest == v >> (8 * i) as u64,
                forall|k: int| 0 <= k < self.data@.len() && !(o <= k < o + i) ==> self.data@[k] == old(self)@.data[k],
                forall|k: int| o <= k < o + i ==> self.data@[k] == le_byte(v, k - o),
            decreases n - i,
        {
            self.data.set(o + i as usize, (rest & 0xff) as u8);
            proof {
                let s = (8 * i) as u64;
                let s1 = (8 * (i + 1)) as u64;
                assert(s1 == s + 8);
                assert((v >> s) >> 8u64 == v >> s1) by (bit_vector)
                    requires
                        s1 == s + 8,
                        s < 64;
            }
            rest = rest >> 8u64;
            i = i + 1;
        }
        proof {
            assert(self.data@ =~= write_le(old(self)@.data, offset as int, v, n as int));
        }
    }

    /// Copy `data` into DRAM at `offset`.
    pub fn load(&mut self, data: &[u8], offset: u64) -> (r: Result<(), MemoryError>)
        ensures
            r == checked(offset, data@.len(), old(self)@.data.len(), ()),
            r is Ok ==> final(self)@ == (DramView { data: write_slice(old(self)@.data, offset as int, data@), ..old(self)@ }),
            r is Err ==> final(self)@ == old(self)@,
    {
        self.write_bytes(offset, data)
    }

    /// Zero `len` bytes at `offset`.
    pub fn zero_range(&mut self, offset: usize, len: usize) -> (r: Result<(), MemoryError>)
        ensures
            r == checked(offset as u64, len as nat, old(self)@.data.len(), ()),
            r is Ok ==> final(self)@ == (DramView {
                data: write_slice(old(self)@.data, offset as int, Seq::new(len as nat, |i: int| 0u8)),
                ..old(self)@
            }),
            r is Err ==> final(self)@ == old(self)@,
    {
        if !(offset <= self.data.len() && len <= self.data.len() - offset) {
            return Err(MemoryError::OutOfBounds(offset as u64));
        }
        let mut i: usize = 0;
        while i < len
            invariant
                i <= len,
                offset + len <= old(self)@.data.len(),
                offset + len <= usize::MAX,
                self.base == old(self).base,
                self.data@.len() == old(self)@.data.len(),
                forall|k: int| 0 <= k < self.data@.len() && !(offset <= k < offset + i) ==> self.data@[k] == old(self)@.data[k],
                forall|k: int| offset <= k < offset + i ==> self.data@[k] == 0,
            decreases len - i,
        {
            self.data.set(offset + i, 0);
            i = i + 1;
        }
        proof {
            assert(self.data@ =~= write_slice(old(self)@.data, offset as int, Seq::new(len as nat, |i: int| 0u8)));
        }
        Ok(())
    }

    /// Byte load.
    pub fn load_8(&self, offset: u64) -> (r: Result<u8, MemoryError>)
        ensures
            r == checked(offset, 1, self@.data.len(), if fits(offset, 1, self@.data.len()) { self@.data[offset as int] } else { 0 }),
    {
        if !self.fits_at(offset, 1) {
            return Err(MemoryError::OutOfBounds(offset));
        }
        Ok(self.data[offset as usize])
    }

    /// Little-endian 16-bit load.
    pub fn load_16(&self, offset: u64) -> (r: Result<u16, MemoryError>)
        ensures
            r == checked(offset, 2, self@.data.len(), if fits(offset, 2, self@.data.len()) { le16_at(self@.data, offset as int) } else { 0 }),
    {
        if !self.fits_at(offset, 2) {
            return Err(MemoryError::OutOfBounds(offset));
        }
        let o = offset as usize;
        Ok((self.data[o] as u16) | ((self.data[o + 1] as u16) << 8u16))
    }

    /// Little-endian 32-bit load.
    pub fn load_32(&self, offset: u64) -> (r: Result<u32, MemoryError>)
        ensures
            r == checked(offset, 4, self@.data.len(), word32(self@, offset)),
    {
        if !self.fits_at(offset, 4) {
            return Err(MemoryError::OutOfBounds(offset));
        }
        let o = offset as usize;
        Ok((self.data[o] as u32) | ((self.data[o + 1] as u32) << 8u32) | ((self.data[o + 2] as u32) << 16u32)
            | ((self.data[o + 3] as u32) << 24u32))
    }

    /// Little-endian 64-bit load.
    pub fn load_64(&self, offset: u64) -> (r: Result<u64, MemoryError>)
        ensures
            r == checked(offset, 8, self@.data.len(), word64(self@, offset)),
    {
        if !self.fits_at(offset, 8) {
            return Err(MemoryError::OutOfBounds(offset));
        }
        let o = offset as usize;
        Ok((self.data[o] as u64) | ((self.data[o + 1] as u64) << 8u64) | ((self.data[o + 2] as u64) << 16u64)
            | ((self.data[o + 3] as u64) << 24u64) | ((self.data[o + 4] as u64) << 32u64)
            | ((self.data[o + 5] as u64) << 40u64) | ((self.data[o + 6] as u64) << 48u64)
            | ((self.data[o + 7] as u64) << 56u64))
    }

    fn store_n(&mut self, offset: u64, value: u64, n: u64) -> (r: Result<(), MemoryError>)
        requires
            1 <= n <= 8,
        ensures
            r == checked(offset, n as nat, old(self)@.data.len(), ()),
            final(self)@ == if r is Ok { with_word(old(self)@, offset, value, n as int) } else { old(self)@ },
    {
        if !self.fits_at(offset, n) {
            return Err(MemoryError::OutOfBounds(offset));
        }
        self.write_le_bytes(offset, value, n);
        Ok(())
    }

    /// Byte store of the low byte of `value`.
    pub fn store_8(&mut self, offset: u64, value: u64) -> (r: Result<(), MemoryError>)
        ensures
            r == checked(offset, 1, old(self)@.data.len(), ()),
            final(self)@ == if r is Ok { with_word(old(self)@, offset, value, 1) } else { old(self)@ },
    {
        self.store_n(offset, value, 1)
    }

    /// Little-endian 16-bit store of the low half-word of `value`.
    pub fn store_16(&mut self, offset: u64, value: u64) -> (r: Result<(), MemoryError>)
        ensures
            r == checked(offset, 2, old(self)@.data.len(), ()),
            final(self)@ == if r is Ok { with_word(old(self)@, offset, value, 2) } else { old(self)@ },
    {
        self.store_n(offset, value, 2)
    }

    /// Little-endian 32-bit store of the low word of `value`.
    pub fn store_32(&mut self, offset: u64, value: u64) -> (r: Result<(), MemoryError>)
        ensures
            r == checked(offset, 4, old(self)@.data.len(), ()),
            final(self)@ == if r is Ok { with_word(old(self)@, offset, value, 4) } else { old(self)@ },
    {
        self.store_n(offset, value, 4)
    }

    /// Little-endian 64-bit store.
    pub fn store_64(&mut self, offset: u64, value: u64) -> (r: Result<(), MemoryError>)
        ensures
            r == checked(offset, 8, old(self)@.data.len(), ()),
            final(self)@ == if r is Ok { with_word(old(self)@, offset, value, 8) } else { old(self)@ },
    {
        self.store_n(offset, value, 8)
    }

    /// Copy a slice into DRAM at `offset`.
    pub fn write_bytes(&mut self, offset: u64, data: &[u8]) -> (r: Result<(), MemoryError>)
        ensures
            r == checked(offset, data@.len(), old(self)@.data.len(), ()),
            r is Ok ==> final(self)@ == (DramView { data: write_slice(old(self)@.data, offset as int, data@), ..old(self)@ }),
            r is Err ==> final(self)@ == old(self)@,
    {
        if !self.fits_at(offset, data.len() as u64) {
            return Err(MemoryError::OutOfBounds(offset));
        }
        let o = offset as usize;
        let mut i: usize = 0;
        while i < data.len()
            invariant
                i <= data@.len(),
                o == offset,
                o + data@.len() <= old(self)@.data.len(),
                o + data@.len() <= usize::MAX,
                self.base == old(self).base,
                self.data@.len() == old(self)@.data.len(),
                forall|k: int| 0 <= k < self.data@.len() && !(o <= k < o + i) ==> self.data@[k] == old(self)@.data[k],
                forall|k: int| o <= k < o + i ==> self.data@[k] == data@[k - o],
            decreases data@.len() - i,
        {
            self.data.set(o + i, data[i]);
            i = i + 1;
        }
        proof {
            assert(self.data@ =~= write_slice(old(self)@.data, offset as int, data@));
        }
        Ok(())
    }

    /// Copy of `len` bytes at `offset`.
    pub fn read_range(&self, offset: usize, len: usize) -> (r: Result<Vec<u8>, MemoryError>)
        ensures
            fits(offset as u64, len as nat, self@.data.len()) <==> r is Ok,
            r matches Ok(v) ==> v@ == self@.data.subrange(offset as int, offset + len),
            r matches Err(e) ==> e == MemoryError::OutOfBounds(offset as u64),
    {
        if !(offset <= self.data.len() && len <= self.data.len() - offset) {
            return Err(MemoryError::OutOfBounds(offset as u64));
        }
        let mut out: Vec<u8> = Vec::new();
        let mut i: usize = 0;
        while i < len
            invariant
                i <= len,
                offset + len <= self@.data.len(),
                offset + len <= usize::MAX,
                out@ == self@.data.subrange(offset as int, offset + i),
            decreases len - i,
        {
            out.push(self.data[offset + i]);
            proof {
                assert(out@ =~= self@.data.subrange(offset as int, offset + i + 1));
            }
            i = i + 1;
        }
        Ok(out)
    }

    /// Copy of the whole contents.
    pub fn get_data(&self) -> (r: Vec<u8>)
        ensures
            r@ == self@.data,
    {
        let mut out: Vec<u8> = Vec::new();
        let mut i: usize = 0;
        while i < self.data.len()
            invariant
                i <= self@.data.len(),
                out@ == self@.data.subrange(0, i as int),
            decreases self@.data.len() - i,
        {
            out.push(self.data[i]);
            proof {
                assert(out@ =~= self@.data.subrange(0, i + 1));
            }
            i = i + 1;
        }
        proof {
            assert(out@ =~= self@.data);
        }
        out
    }

    /// Replace the whole contents; the length must match.
    pub fn set_data(&mut self, data: &[u8]) -> (r: Result<(), MemoryError>)
        ensures
            data@.len() == old(self)@.data.len() <==> r is Ok,
            r is Err ==> r == Err::<(), MemoryError>(MemoryError::OutOfBounds(data@.len() as u64)) && final(self)@ == old(self)@,
            r is Ok ==> final(self)@ == (DramView { data: data@, ..old(self)@ }),
    {
        if data.len() != self.data.len() {
            return Err(MemoryError::OutOfBounds(data.len() as u64));
        }
        let r = self.write_bytes(0, data);
        proof {
            assert(self@.data =~= data@);
        }
        r
    }
}


impl Dram {
    fn aligned_word_32(&self, offset: u64) -> (r: Result<u32, MemoryError>)
        ensures
            r == checked_aligned(offset, 4, self@.data.len(), word32(self@, offset)),
            r is Ok ==> fits(offset, 4, self@.data.len()) && offset + 4 <= usize::MAX,
    {
        if offset % 4 != 0 {
            return Err(MemoryError::InvalidAlignment(offset));
        }
        if !self.fits_at(offset, 4) {
            return Err(MemoryError::OutOfBounds(offset));
        }
        self.load_32(offset)
    }

    fn aligned_word_64(&self, offset: u64) -> (r: Result<u64, MemoryError>)
        ensures
            r == checked_aligned(offset, 8, self@.data.len(), word64(self@, offset)),
            r is Ok ==> fits(offset, 8, self@.data.len()) && offset + 8 <= usize::MAX,
    {
        if offset % 8 != 0 {
            return Err(MemoryError::InvalidAlignment(offset));
        }
        if !self.fits_at(offset, 8) {
            return Err(MemoryError::OutOfBounds(offset));
        }
        self.load_64(offset)
    }

    /// AMOSWAP.W: store `value`, return the old word.
    pub fn atomic_swap_32(&mut self, offset: u64, value: u32) -> (r: Result<u32, MemoryError>)
        ensures
            rmw_outcome(old(self)@, offset, 4, word32(old(self)@, offset), value as u64, r, final(self)@),
    {
        let old = self.aligned_word_32(offset)?;
        self.write_le_bytes(offset, value as u64, 4);
        Ok(old)
    }

    /// AMOSWAP.D: store `value`, return the old doubleword.
    pub fn atomic_swap_64(&mut self, offset: u64, value: u64) -> (r: Result<u64, MemoryError>)
        ensures
            rmw_outcome(old(self)@, offset, 8, word64(old(self)@, offset), value, r, final(self)@),
    {
        let old = self.aligned_word_64(offset)?;
        self.write_le_bytes(offset, value, 8);
        Ok(old)
    }

    /// AMOADD.W: store the wrapping sum, return the old word.
    pub fn atomic_add_32(&mut self, offset: u64, value: u32) -> (r: Result<u32, MemoryError>)
        ensures
            rmw_outcome(old(self)@, offset, 4, word32(old(self)@, offset),
                vstd::wrapping::u32_specs::wrapping_add(word32(old(self)@, offset), value) as u64, r, final(self)@),
    {
        let old = self.aligned_word_32(offset)?;
        self.write_le_bytes(offset, old.wrapping_add(value) as u64, 4);
        Ok(old)
    }

    /// AMOADD.D: store the wrapping sum, return the old doubleword.
    pub fn atomic_add_64(&mut self, offset: u64, value: u64) -> (r: Result<u64, MemoryError>)
        ensures
            rmw_outcome(old(self)@, offset, 8, word64(old(self)@, offset),
                vstd::wrapping::u64_specs::wrapping_add(word64(old(self)@, offset), value), r, final(self)@),
    {
        let old = self.aligned_word_64(offset)?;
        self.write_le_bytes(offset, old.wrapping_add(value), 8);
        Ok(old)
    }

    /// AMOAND.W.
    pub fn atomic_and_32(&mut self, offset: u64, value: u32) -> (r: Result<u32, MemoryError>)
        ensures
            rmw_outcome(old(self)@, offset, 4, word32(old(self)@, offset), (word32(old(self)@, offset) & value) as u64, r, final(self)@),
    {
        let old = self.aligned_word_32(offset)?;
        self.write_le_bytes(offset, (old & value) as u64, 4);
        Ok(old)
    }

    /// AMOAND.D.
    pub fn atomic_and_64(&mut self, offset: u64, value: u64) -> (r: Result<u64, MemoryError>)
        ensures
            rmw_outcome(old(self)@, offset, 8, word64(old(self)@, offset), word64(old(self)@, offset) & value, r, final(self)@),
    {
        let old = self.aligned_word_64(offset)?;
        self.write_le_bytes(offset, old & value, 8);
        Ok(old)
    }

    /// AMOOR.W.
    pub fn atomic_or_32(&mut self, offset: u64, value: u32) -> (r: Result<u32, MemoryError>)
        ensures
            rmw_outcome(old(self)@, offset, 4, word32(old(self)@, offset), (word32(old(self)@, offset) | value) as u64, r, final(self)@),
    {
        let old = self.aligned_word_32(offset)?;
        self.write_le_bytes(offset, (old | value) as u64, 4);
        Ok(old)
    }

    /// AMOOR.D.
    pub fn atomic_or_64(&mut self, offset: u64, value: u64) -> (r: Result<u64, MemoryError>)
        ensures
            rmw_outcome(old(self)@, offset, 8, word64(old(self)@, offset), word64(old(self)@, offset) | value, r, final(self)@),
    {
        let old = self.aligned_word_64(offset)?;
        self.write_le_bytes(offset, old | value, 8);
        Ok(old)
    }

    /// AMOXOR.W.
    pub fn atomic_xor_32(&mut self, offset: u64, value: u32) -> (r: Result<u32, MemoryError>)
        ensures
            rmw_outcome(old(self)@, offset, 4, word32(old(self)@, offset), (word32(old(self)@, offset) ^ value) as u64, r, final(self)@),
    {
        let old = self.aligned_word_32(offset)?;
        self.write_le_bytes(offset, (old ^ value) as u64, 4);
        Ok(old)
    }

    /// AMOXOR.D.
    pub fn atomic_xor_64(&mut self, offset: u64, value: u64) -> (r: Result<u64, MemoryError>)
        ensures
            rmw_outcome(old(self)@, offset, 8, word64(old(self)@, offset), word64(old(self)@, offset) ^ value, r, final(self)@),
    {
        let old = self.aligned_word_64(offset)?;
        self.write_le_bytes(offset, old ^ value, 8);
        Ok(old)
    }

    /// Compare-and-exchange: stores `new_value` when the word equals
    /// `expected`; returns whether it did and the old word.
    pub fn atomic_compare_exchange_32(&mut self, offset: u64, expected: u32, new_value: u32) -> (r: Result<(bool, u32), MemoryError>)
        ensures
            ({
                let w = word32(old(self)@, offset);
                rmw_outcome(old(self)@, offset, 4, (w == expected, w), if w == expected { new_value as u64 } else { w as u64 }, r, final(self)@)
            }),
    {
        let old = self.aligned_word_32(offset)?;
        if old == expected {
            self.write_le_bytes(offset, new_value as u64, 4);
            Ok((true, old))
        } else {
            self.write_le_bytes(offset, old as u64, 4);
            Ok((false, old))
        }
    }

    /// 64-bit compare-and-exchange.
    pub fn atomic_compare_exchange_64(&mut self, offset: u64, expected: u64, new_value: u64) -> (r: Result<(bool, u64), MemoryError>)
        ensures
            ({
                let w = word64(old(self)@, offset);
                rmw_outcome(old(self)@, offset, 8, (w == expected, w), if w == expected { new_value } else { w }, r, final(self)@)
            }),
    {
        let old = self.aligned_word_64(offset)?;
        if old == expected {
            self.write_le_bytes(offset, new_value, 8);
            Ok((true, old))
        } else {
            self.write_le_bytes(offset, old, 8);
            Ok((false, old))
        }
    }

    /// AMOMIN.W: signed minimum; returns the old word as signed.
    pub fn atomic_min_32(&mut self, offset: u64, value: i32) -> (r: Result<i32, MemoryError>)
        ensures
            ({
                let w = word32(old(self)@, offset) as i32;
                rmw_outcome(old(self)@, offset, 4, w, (if value < w { value } else { w }) as u32 as u64, r, final(self)@)
            }),
    {
        let old = self.aligned_word_32(offset)? as i32;
        let new = if value < old { value } else { old };
        self.write_le_bytes(offset, new as u32 as u64, 4);
        Ok(old)
    }

    /// AMOMIN.D: signed minimum; returns the old doubleword as signed.
    pub fn atomic_min_64(&mut self, offset: u64, value: i64) -> (r: Result<i64, MemoryError>)
        ensures
            ({
                let w = word64(old(self)@, offset) as i64;
                rmw_outcome(old(self)@, offset, 8, w, (if value < w { value } else { w }) as u64, r, final(self)@)
            }),
    {
        let old = self.aligned_word_64(offset)? as i64;
        let new = if value < old { value } else { old };
        self.write_le_bytes(offset, new as u64, 8);
        Ok(old)
    }

    /// AMOMAX.W: signed maximum; returns the old word as signed.
    pub fn atomic_max_32(&mut self, offset: u64, value: i32) -> (r: Result<i32, MemoryError>)
        ensures
            ({
                let w = word32(old(self)@, offset) as i32;
                rmw_outcome(old(self)@, offset, 4, w, (if value > w { value } else { w }) as u32 as u64, r, final(self)@)
            }),
    {
        let old = self.aligned_word_32(offset)? as i32;
        let new = if value > old { value } else { old };
        self.write_le_bytes(offset, new as u32 as u64, 4);
        Ok(old)
    }

    /// AMOMAX.D: signed maximum; returns the old doubleword as signed.
    pub fn atomic_max_64(&mut self, offset: u64, value: i64) -> (r: Result<i64, MemoryError>)
        ensures
            ({
                let w = word64(old(self)@, offset) as i64;
                rmw_outcome(old(self)@, offset, 8, w, (if value > w { value } else { w }) as u64, r, final(self)@)
            }),
    {
        let old = self.aligned_word_64(offset)? as i64;
        let new = if value > old { value } else { old };
        self.write_le_bytes(offset, new as u64, 8);
        Ok(old)
    }

    /// AMOMINU.W: unsigned minimum.
    pub fn atomic_minu_32(&mut self, offset: u64, value: u32) -> (r: Result<u32, MemoryError>)
        ensures
            ({
                let w = word32(old(self)@, offset);
                rmw_outcome(old(self)@, offset, 4, w, (if value < w { value } else { w }) as u64, r, final(self)@)
            }),
    {
        let old = self.aligned_word_32(offset)?;
        let new = if value < old { value } else { old };
        self.write_le_bytes(offset, new as u64, 4);
        Ok(old)
    }

    /// AMOMINU.D: unsigned minimum.
    pub fn atomic_minu_64(&mut self, offset: u64, value: u64) -> (r: Result<u64, MemoryError>)
        ensures
            ({
                let w = word64(old(self)@, offset);
                rmw_outcome(old(self)@, offset, 8, w, if value < w { value } else { w }, r, final(self)@)
            }),
    {
        let old = self.aligned_word_64(offset)?;
        let new = if value < old { value } else { old };
        self.write_le_bytes(offset, new, 8);
        Ok(old)
    }

    /// AMOMAXU.W: unsigned maximum.
    pub fn atomic_maxu_32(&mut self, offset: u64, value: u32) -> (r: Result<u32, MemoryError>)
        ensures
            ({
                let w = word32(old(self)@, offset);
                rmw_outcome(old(self)@, offset, 4, w, (if value > w { value } else { w }) as u64, r, final(self)@)
            }),
    {
        let old = self.aligned_word_32(offset)?;
        let new = if value > old { value } else { old };
        self.write_le_bytes(offset, new as u64, 4);
        Ok(old)
    }

    /// AMOMAXU.D: unsigned maximum.
    pub fn atomic_maxu_64(&mut self, offset: u64, value: u64) -> (r: Result<u64, MemoryError>)
        ensures
            ({
                let w = word64(old(self)@, offset);
                rmw_outcome(old(self)@, offset, 8, w, if value > w { value } else { w }, r, final(self)@)
            }),
    {
        let old = self.aligned_word_64(offset)?;
        let new = if value > old { value } else { old };
        self.write_le_bytes(offset, new, 8);
        Ok(old)
    }

    /// Aligned 32-bit load for LR.W.
    pub fn atomic_load_32(&self, offset: u64) -> (r: Result<u32, MemoryError>)
        ensures
            r == checked_aligned(offset, 4, self@.data.len(), word32(self@, offset)),
    {
        self.aligned_word_32(offset)
    }

    /// Aligned 64-bit load for LR.D.
    pub fn atomic_load_64(&self, offset: u64) -> (r: Result<u64, MemoryError>)
        ensures
            r == checked_aligned(offset, 8, self@.data.len(), word64(self@, offset)),
    {
        self.aligned_word_64(offset)
    }

    /// Compare-and-exchange for SC.W: whether `new` was stored.
    pub fn atomic_cas_32(&mut self, offset: u64, expected: u32, new: u32) -> (r: Result<bool, MemoryError>)
        ensures
            ({
                let w = word32(old(self)@, offset);
                rmw_outcome(old(self)@, offset, 4, w == expected, if w == expected { new as u64 } else { w as u64 }, r, final(self)@)
            }),
    {
        match self.atomic_compare_exchange_32(offset, expected, new) {
            Ok((ok, _)) => Ok(ok),
            Err(e) => Err(e),
        }
    }

    /// Compare-and-exchange for SC.D: whether `new` was stored.
    pub fn atomic_cas_64(&mut self, offset: u64, expected: u64, new: u64) -> (r: Result<bool, MemoryError>)
        ensures
            ({
                let w = word64(old(self)@, offset);
                rmw_outcome(old(self)@, offset, 8, w == expected, if w == expected { new } else { w }, r, final(self)@)
            }),
    {
        match self.atomic_compare_exchange_64(offset, expected, new) {
            Ok((ok, _)) => Ok(ok),
            Err(e) => Err(e),
        }
    }

    /// Aligned 32-bit store for SC.W.
    pub fn atomic_store_32(&mut self, offset: u64, value: u32) -> (r: Result<(), MemoryError>)
        ensures
            rmw_outcome(old(self)@, offset, 4, (), value as u64, r, final(self)@),
    {
        let _ = self.aligned_word_32(offset)?;
        self.write_le_bytes(offset, value as u64, 4);
        Ok(())
    }

    /// Aligned 64-bit store for SC.D.
    pub fn atomic_store_64(&mut self, offset: u64, value: u64) -> (r: Result<(), MemoryError>)
        ensures
            rmw_outcome(old(self)@, offset, 8, (), value, r, final(self)@),
    {
        let _ = self.aligned_word_64(offset)?;
        self.write_le_bytes(offset, value, 8);
        Ok(())
    }
}

/// A 32-bit store followed by a 32-bit load at the same offset gives back
/// the low word of the stored value.
pub proof fn lemma_store_load_32(d: Seq<u8>, offset: u64, v: u64)
    requires
        fits(offset, 4, d.len()),
    ensures
        le32_at(write_le(d, offset as int, v, 4), offset as int) == v as u32,
{
    let w = write_le(d, offset as int, v, 4);
    let o = offset as int;
    assert(w[o] == ((v >> 0u64) & 0xff) as u8);
    assert(w[o + 1] == ((v >> 8u64) & 0xff) as u8);
    assert(w[o + 2] == ((v >> 16u64) & 0xff) as u8);
    assert(w[o + 3] == ((v >> 24u64) & 0xff) as u8);
    assert(((((v >> 0u64) & 0xff) as u8) as u32) | (((((v >> 8u64) & 0xff) as u8) as u32) << 8u32)
        | (((((v >> 16u64) & 0xff) as u8) as u32) << 16u32) | (((((v >> 24u64) & 0xff) as u8) as u32) << 24u32)
        == v as u32) by (bit_vector);
}

/// A 64-bit store followed by a 64-bit load at the same offset gives back
/// the stored value.
pub proof fn lemma_store_load_64(d: Seq<u8>, offset: u64, v: u64)
    requires
        fits(offset, 8, d.len()),
    ensures
        le64_at(write_le(d, offset as int, v, 8), offset as int) == v,
{
    let w = write_le(d, offset as int, v, 8);
    let o = offset as int;
    assert(w[o] == ((v >> 0u64) & 0xff) as u8);
    assert(w[o + 1] == ((v >> 8u64) & 0xff) as u8);
    assert(w[o + 2] == ((v >> 16u64) & 0xff) as u8);
    assert(w[o + 3] == ((v >> 24u64) & 0xff) as u8);
    assert(w[o + 4] == ((v >> 32u64) & 0xff) as u8);
    assert(w[o + 5] == ((v >> 40u64) & 0xff) as u8);
    assert(w[o + 6] == ((v >> 48u64) & 0xff) as u8);
    assert(w[o + 7] == ((v >> 56u64) & 0xff) as u8);
    assert(((((v >> 0u64) & 0xff) as u8) as u64) | (((((v >> 8u64) & 0xff) as u8) as u64) << 8u64)
        | (((((v >> 16u64) & 0xff) as u8) as u64) << 16u64) | (((((v >> 24u64) & 0xff) as u8) as u64) << 24u64)
        | (((((v >> 32u64) & 0xff) as u8) as u64) << 32u64) | (((((v >> 40u64) & 0xff) as u8) as u64) << 40u64)
        | (((((v >> 48u64) & 0xff) as u8) as u64) << 48u64) | (((((v >> 56u64) & 0xff) as u8) as u64) << 56u64)
        == v) by (bit_vector);
}

/// A 16-bit store followed by a 16-bit load at the same offset gives back
/// the low halfword of the stored value.
pub proof fn lemma_store_load_16(d: Seq<u8>, offset: u64, v: u64)
    requires
        fits(offset, 2, d.len()),
    ensures
        le16_at(write_le(d, offset as int, v, 2), offset as int) == v as u16,
{
    let w = write_le(d, offset as int, v, 2);
    let o = offset as int;
    assert(w[o] == ((v >> 0u64) & 0xff) as u8);
    assert(w[o + 1] == ((v >> 8u64) & 0xff) as u8);
    assert(((((v >> 0u64) & 0xff) as u8) as u16) | (((((v >> 8u64) & 0xff) as u8) as u16) << 8u16) == v as u16)
        by (bit_vector);
}

/// A byte store followed by a byte load gives back the low byte.
pub proof fn lemma_store_load_8(d: Seq<u8>, offset: u64, v: u64)
    requires
        fits(offset, 1, d.len()),
    ensures
        write_le(d, offset as int, v, 1)[offset as int] == (v & 0xff) as u8,
{
    lemma_shift_zero(v);
}

/// A store leaves every byte outside its range unchanged.
pub proof fn lemma_store_frame(d: Seq<u8>, offset: u64, v: u64, n: nat, k: int)
    requires
        0 <= k < d.len(),
        !(offset <= k < offset + n),
    ensures
        write_le(d, offset as int, v, n as int)[k] == d[k],
        write_le(d, offset as int, v, n as int).len() == d.len(),
{
}

} // verus!
