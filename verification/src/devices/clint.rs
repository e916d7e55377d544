//! Core Local Interruptor (CLINT): machine timer and software interrupts.
//!
//! The device state is an owned value; every mutation goes through `&mut self`.

use vstd::prelude::*;

verus! {

pub const CLINT_BASE: u64 = 0x0200_0000;
pub const CLINT_SIZE: u64 = 0x10000;

pub const MSIP_OFFSET: u64 = 0x0000;
pub const MTIME_OFFSET: u64 = 0xbff8;
pub const MTIMECMP_OFFSET: u64 = 0x4000;
/// Hart count register offset (read-only, set by emulator at init).
pub const HART_COUNT_OFFSET: u64 = 0x0F00;

/// Maximum number of harts supported by the CLINT.
pub const MAX_HARTS: usize = 128;

/// Time increment per tick (in timer ticks).
pub const MTIME_INCREMENT: u64 = 256;

/// Abstract state of a CLINT.
pub struct ClintView {
    pub mtime: u64,
    pub msip: Seq<u32>,
    pub mtime_compare: Seq<u64>,
    pub num_harts: usize,
}

/// Number of harts after clamping to `MAX_HARTS`.
pub open spec fn clamp_harts(n: usize) -> usize {
    if n < MAX_HARTS { n } else { MAX_HARTS }
}

/// `offset` addresses the MSIP word array.
pub open spec fn in_msip(offset: u64) -> bool {
    MSIP_OFFSET <= offset < MSIP_OFFSET + 4 * MAX_HARTS
}

/// `offset` addresses the MTIMECMP doubleword array.
pub open spec fn in_mtime_compare(offset: u64) -> bool {
    MTIMECMP_OFFSET <= offset < MTIMECMP_OFFSET + 8 * MAX_HARTS
}

pub open spec fn msip_index(offset: u64) -> int {
    ((offset - MSIP_OFFSET) / 4) as int
}

pub open spec fn mtime_compare_index(offset: u64) -> int {
    ((offset - MTIMECMP_OFFSET) / 8) as int
}

/// Value with its low 32 bits replaced by `low`.
pub open spec fn with_low32(current: u64, low: u64) -> u64 {
    (current & 0xffff_ffff_0000_0000) | (low & 0xffff_ffff)
}

/// Value with its high 32 bits replaced by the low 32 bits of `high`.
pub open spec fn with_high32(current: u64, high: u64) -> u64 {
    (current & 0x0000_0000_ffff_ffff) | ((high & 0xffff_ffff) << 32u64)
}

/// Value read from the CLINT register space at `offset` with access width `size`.
pub open spec fn load_spec(v: ClintView, offset: u64, size: u64) -> u64 {
    if offset == MTIME_OFFSET && size == 8 {
        v.mtime
    } else if offset == MTIME_OFFSET && size == 4 {
        v.mtime & 0xffff_ffff
    } else if offset == MTIME_OFFSET + 4 && size == 4 {
        v.mtime >> 32u64
    } else if size == 4 && in_msip(offset) {
        v.msip[msip_index(offset)] as u64
    } else if size == 8 && in_mtime_compare(offset) {
        v.mtime_compare[mtime_compare_index(offset)]
    } else if size == 4 && in_mtime_compare(offset) {
        let val = v.mtime_compare[mtime_compare_index(offset)];
        if (offset - MTIMECMP_OFFSET) % 8 == 0 {
            val & 0xffff_ffff
        } else if (offset - MTIMECMP_OFFSET) % 8 == 4 {
            val >> 32u64
        } else {
            0
        }
    } else if offset == HART_COUNT_OFFSET && (size == 4 || size == 8) {
        v.num_harts as u64
    } else {
        0
    }
}

/// State after a store of `value` at `offset` with access width `size`.
pub open spec fn store_spec(v: ClintView, offset: u64, size: u64, value: u64) -> ClintView {
    if size == 4 && in_msip(offset) {
        ClintView { msip: v.msip.update(msip_index(offset), (value & 1) as u32), ..v }
    } else if offset == MTIME_OFFSET || (offset == MTIME_OFFSET + 4 && size == 4) {
        v
    } else if size == 8 && in_mtime_compare(offset) {
        ClintView { mtime_compare: v.mtime_compare.update(mtime_compare_index(offset), value), ..v }
    } else if size == 4 && in_mtime_compare(offset) {
        let i = mtime_compare_index(offset);
        let cur = v.mtime_compare[i];
        if (offset - MTIMECMP_OFFSET) % 8 == 0 {
            ClintView { mtime_compare: v.mtime_compare.update(i, with_low32(cur, value)), ..v }
        } else if (offset - MTIMECMP_OFFSET) % 8 == 4 {
            ClintView { mtime_compare: v.mtime_compare.update(i, with_high32(cur, value)), ..v }
        } else {
            v
        }
    } else {
        v
    }
}

/// Element `hart` of a per-hart sequence.
pub open spec fn hart_slot<T>(s: Seq<T>, hart: usize) -> T {
    s[hart as int]
}

/// Per-hart sequence with element `hart` replaced.
pub open spec fn hart_update<T>(s: Seq<T>, hart: usize, v: T) -> Seq<T> {
    s.update(hart as int, v)
}

pub open spec fn low_half(x: u64) -> u32 {
    (x & 0xffff_ffff) as u32
}

pub open spec fn high_half(x: u64) -> u32 {
    (x >> 32u64) as u32
}

pub open spec fn widen(x: u32) -> u64 {
    x as u64
}

fn low_word(x: u64) -> (r: u32)
    ensures
        r == low_half(x),
{
    (x & 0xFFFF_FFFF) as u32
}

fn high_word(x: u64) -> (r: u32)
    ensures
        r == high_half(x),
{
    (x >> 32) as u32
}

fn zero_extend(x: u32) -> (r: u64)
    ensures
        r == widen(x),
        r & 0xffff_ffff == r,
{
    let r = x as u64;
    assert(r & 0xffff_ffff == r) by (bit_vector) requires r <= 0xffff_ffff;
    r
}

fn replace_low(current: u64, low: u64) -> (r: u64)
    ensures
        r == with_low32(current, low),
{
    (current & 0xFFFF_FFFF_0000_0000) | (low & 0xFFFF_FFFF)
}

fn replace_high(current: u64, high: u64) -> (r: u64)
    ensures
        r == with_high32(current, high),
{
    (current & 0x0000_0000_FFFF_FFFF) | ((high & 0xFFFF_FFFF) << 32)
}

/// A CLINT state as it stands after a reset with `n` harts.
pub open spec fn reset_state(v: ClintView, n: usize) -> bool {
    &&& v.mtime == 0
    &&& v.msip.len() == MAX_HARTS
    &&& v.mtime_compare.len() == MAX_HARTS
    &&& forall|i: int| 0 <= i < MAX_HARTS ==> v.msip[i] == 0
    &&& forall|i: int| 0 <= i < MAX_HARTS ==> v.mtime_compare[i] == u64::MAX
    &&& v.num_harts == clamp_harts(n)
}

/// Core Local Interruptor (CLINT) - Timer and Software Interrupts.
pub struct Clint {
    /// Machine timer counter.
    mtime: u64,
    /// Per-hart Machine Software Interrupt Pending words (only bit 0 meaningful).
    msip: [u32; 128],
    /// Per-hart Machine Timer Compare registers.
    mtime_compare: [u64; 128],
    /// Number of harts in the system.
    num_harts: usize,
}

impl View for Clint {
    type V = ClintView;

    closed spec fn view(&self) -> ClintView {
        ClintView {
            mtime: self.mtime,
            msip: self.msip@,
            mtime_compare: self.mtime_compare@,
            num_harts: self.num_harts,
        }
    }
}

impl Clint {
    /// Create a CLINT with one hart.
    pub fn new() -> (r: Self)
        ensures
            reset_state(r@, 1),
    {
        Self::with_harts(1)
    }

    /// Create a new CLINT with a specific hart count.
    pub fn with_harts(num_harts: usize) -> (r: Self)
        ensures
            reset_state(r@, num_harts),
    {
        let n = if num_harts < MAX_HARTS { num_harts } else { MAX_HARTS };
        let r = Self { mtime: 0, msip: [0u32; 128], mtime_compare: [u64::MAX; 128], num_harts: n };
        r
    }

    /// Set the number of harts (clamped to `MAX_HARTS`).
    pub fn set_num_harts(&mut self, num_harts: usize)
        ensures
            final(self)@ == (ClintView { num_harts: clamp_harts(num_harts), ..old(self)@ }),
    {
        self.num_harts = if num_harts < MAX_HARTS { num_harts } else { MAX_HARTS };
    }

    /// Get the number of harts.
    pub fn num_harts(&self) -> (r: usize)
        ensures
            r == self@.num_harts,
    {
        self.num_harts
    }

    /// Returns the current mtime value.
    pub fn mtime(&self) -> (r: u64)
        ensures
            r == self@.mtime,
    {
        self.mtime
    }

    /// Sets mtime to a specific value (used for snapshot restore).
    pub fn set_mtime(&mut self, val: u64)
        ensures
            final(self)@ == (ClintView { mtime: val, ..old(self)@ }),
    {
        self.mtime = val;
    }

    /// Advance mtime by one tick (wrapping on overflow).
    pub fn tick(&mut self)
        ensures
            final(self)@ == (ClintView {
                mtime: vstd::wrapping::u64_specs::wrapping_add(old(self)@.mtime, MTIME_INCREMENT),
                ..old(self)@
            }),
    {
        self.mtime = self.mtime.wrapping_add(MTIME_INCREMENT);
    }

    /// Same as `tick`.
    pub fn increment(&mut self)
        ensures
            final(self)@ == (ClintView {
                mtime: vstd::wrapping::u64_specs::wrapping_add(old(self)@.mtime, MTIME_INCREMENT),
                ..old(self)@
            }),
    {
        self.tick();
    }

    /// Host time synchronisation: the timer is deterministic, so this changes nothing.
    pub fn sync_time_micros(&self, _micros: u64) {
    }

    /// Get msip value for a hart (0 for a hart out of range).
    pub fn get_msip(&self, hart: usize) -> (r: u32)
        ensures
            r == (if hart < MAX_HARTS { self@.msip[hart as int] } else { 0 }),
    {
        if hart < MAX_HARTS {
            self.msip[hart]
        } else {
            0
        }
    }

    /// Set MSIP value for a hart (only bit 0 is kept); out-of-range harts are ignored.
    pub fn set_msip(&mut self, hart: usize, value: u32)
        ensures
            final(self)@ == (if hart < MAX_HARTS {
                ClintView { msip: old(self)@.msip.update(hart as int, value & 1), ..old(self)@ }
            } else {
                old(self)@
            }),
    {
        if hart < MAX_HARTS {
            self.msip[hart] = value & 1;
        }
    }

    /// Get the timer compare value for a hart (`u64::MAX` for a hart out of range).
    pub fn get_mtimecmp(&self, hart: usize) -> (r: u64)
        ensures
            r == (if hart < MAX_HARTS { hart_slot(self@.mtime_compare, hart) } else { u64::MAX }),
    {
        if hart < MAX_HARTS {
            self.mtime_compare[hart]
        } else {
            u64::MAX
        }
    }

    /// Set the timer compare value for a hart; out-of-range harts are ignored.
    pub fn set_mtimecmp(&mut self, hart: usize, value: u64)
        ensures
            final(self)@ == (if hart < MAX_HARTS {
                ClintView { mtime_compare: hart_update(old(self)@.mtime_compare, hart, value), ..old(self)@ }
            } else {
                old(self)@
            }),
    {
        if hart < MAX_HARTS {
            self.mtime_compare[hart] = value;
        }
    }

    /// Low 32 bits of the timer compare value for a hart (`u32::MAX` out of range).
    pub fn get_mtimecmp_low(&self, hart: usize) -> (r: u32)
        ensures
            r == (if hart < MAX_HARTS { low_half(hart_slot(self@.mtime_compare, hart)) } else { u32::MAX }),
    {
        if hart < MAX_HARTS {
            low_word(self.mtime_compare[hart])
        } else {
            u32::MAX
        }
    }

    /// High 32 bits of the timer compare value for a hart (`u32::MAX` out of range).
    pub fn get_mtimecmp_high(&self, hart: usize) -> (r: u32)
        ensures
            r == (if hart < MAX_HARTS { high_half(hart_slot(self@.mtime_compare, hart)) } else { u32::MAX }),
    {
        if hart < MAX_HARTS {
            high_word(self.mtime_compare[hart])
        } else {
            u32::MAX
        }
    }

    /// Replace the low 32 bits of the timer compare value for a hart;
    /// out-of-range harts are ignored.
    pub fn set_mtimecmp_low(&mut self, hart: usize, value: u32)
        ensures
            final(self)@ == (if hart < MAX_HARTS {
                ClintView {
                    mtime_compare: hart_update(
                        old(self)@.mtime_compare,
                        hart,
                        with_low32(hart_slot(old(self)@.mtime_compare, hart), widen(value)),
                    ),
                    ..old(self)@
                }
            } else {
                old(self)@
            }),
    {
        if hart >= MAX_HARTS {
            return;
        }
        let current = self.mtime_compare[hart];
        self.mtime_compare[hart] = replace_low(current, zero_extend(value));
    }

    /// Replace the high 32 bits of the timer compare value for a hart;
    /// out-of-range harts are ignored.
    pub fn set_mtimecmp_high(&mut self, hart: usize, value: u32)
        ensures
            final(self)@ == (if hart < MAX_HARTS {
                ClintView {
                    mtime_compare: hart_update(
                        old(self)@.mtime_compare,
                        hart,
                        with_high32(hart_slot(old(self)@.mtime_compare, hart), widen(value)),
                    ),
                    ..old(self)@
                }
            } else {
                old(self)@
            }),
    {
        if hart >= MAX_HARTS {
            return;
        }
        let current = self.mtime_compare[hart];
        self.mtime_compare[hart] = replace_high(current, zero_extend(value));
    }

    /// Timer interrupt pending for a hart: `mtime` has reached its compare value.
    pub fn is_timer_pending(&self, hart_id: usize) -> (r: bool)
        ensures
            r == (hart_id < MAX_HARTS && self@.mtime >= self@.mtime_compare[hart_id as int]),
    {
        if hart_id >= MAX_HARTS {
            return false;
        }
        self.mtime >= self.mtime_compare[hart_id]
    }

    /// Software interrupt pending for a hart: bit 0 of its MSIP word.
    pub fn is_msip_pending(&self, hart_id: usize) -> (r: bool)
        ensures
            r == (hart_id < MAX_HARTS && self@.msip[hart_id as int] & 1 != 0),
    {
        if hart_id >= MAX_HARTS {
            return false;
        }
        (self.msip[hart_id] & 1) != 0
    }

    /// Both interrupt conditions for a hart: `(msip_pending, timer_pending)`.
    pub fn check_interrupts_for_hart(&self, hart_id: usize) -> (r: (bool, bool))
        ensures
            r.0 == (hart_id < MAX_HARTS && self@.msip[hart_id as int] & 1 != 0),
            r.1 == (hart_id < MAX_HARTS && self@.mtime >= self@.mtime_compare[hart_id as int]),
    {
        if hart_id >= MAX_HARTS {
            return (false, false);
        }
        let msip = (self.msip[hart_id] & 1) != 0;
        let timer = self.mtime >= self.mtime_compare[hart_id];
        (msip, timer)
    }

    /// Load from the CLINT register space (offsets relative to `CLINT_BASE`).
    /// Reserved offsets and sizes read as zero.
    pub fn load(&self, offset: u64, size: u64) -> (r: u64)
        ensures
            r == load_spec(self@, offset, size),
    {
        if offset == MTIME_OFFSET && size == 8 {
            self.mtime
        } else if offset == MTIME_OFFSET && size == 4 {
            self.mtime & 0xFFFF_FFFF
        } else if offset == MTIME_OFFSET + 4 && size == 4 {
            self.mtime >> 32
        } else if size == 4 && offset >= MSIP_OFFSET && offset < MSIP_OFFSET + 4 * 128 {
            let hart_idx = ((offset - MSIP_OFFSET) / 4) as usize;
            self.msip[hart_idx] as u64
        } else if size == 8 && offset >= MTIMECMP_OFFSET && offset < MTIMECMP_OFFSET + 8 * 128 {
            let hart_idx = ((offset - MTIMECMP_OFFSET) / 8) as usize;
            self.mtime_compare[hart_idx]
        } else if size == 4 && offset >= MTIMECMP_OFFSET && offset < MTIMECMP_OFFSET + 8 * 128 {
            let hart_idx = ((offset - MTIMECMP_OFFSET) / 8) as usize;
            let sub_offset = (offset - MTIMECMP_OFFSET) % 8;
            let val = self.mtime_compare[hart_idx];
            if sub_offset == 0 {
                val & 0xFFFF_FFFF
            } else if sub_offset == 4 {
                val >> 32
            } else {
                0
            }
        } else if offset == HART_COUNT_OFFSET && (size == 4 || size == 8) {
            self.num_harts as u64
        } else {
            0
        }
    }

    /// Copy of all MSIP values.
    pub fn get_msip_array(&self) -> (r: [u32; 128])
        ensures
            r@ == self@.msip,
    {
        self.msip
    }

    /// Copy of all MTIMECMP values.
    pub fn get_mtimecmp_array(&self) -> (r: [u64; 128])
        ensures
            r@ == self@.mtime_compare,
    {
        self.mtime_compare
    }

    /// Restore MSIP values: the first `min(len, MAX_HARTS)` slots are copied,
    /// the rest are cleared.
    pub fn set_msip_array(&mut self, values: &[u32])
        ensures
            final(self)@ == (ClintView {
                msip: Seq::new(MAX_HARTS as nat, |i: int| if i < values@.len() { values@[i] } else { 0u32 }),
                ..old(self)@
            }),
    {
        let len = if values.len() < MAX_HARTS { values.len() } else { MAX_HARTS };
        let mut i: usize = 0;
        while i < MAX_HARTS
            invariant
                len == (if values@.len() < MAX_HARTS { values@.len() } else { MAX_HARTS as nat }),
                i <= MAX_HARTS,
                self.mtime == old(self).mtime,
                self.mtime_compare@ == old(self).mtime_compare@,
                self.num_harts == old(self).num_harts,
                forall|j: int| 0 <= j < i ==> self.msip@[j] == (if j < values@.len() { values@[j] } else { 0u32 }),
            decreases MAX_HARTS - i,
        {
            if i < len {
                self.msip[i] = values[i];
            } else {
                self.msip[i] = 0;
            }
            i = i + 1;
        }
        proof {
            assert(self@.msip =~= Seq::new(MAX_HARTS as nat, |i: int| if i < values@.len() { values@[i] } else { 0u32 }));
        }
    }

    /// Restore MTIMECMP values: the first `min(len, MAX_HARTS)` slots are copied,
    /// the rest are set to `u64::MAX` (no timer interrupt).
    pub fn set_mtimecmp_array(&mut self, values: &[u64])
        ensures
            final(self)@ == (ClintView {
                mtime_compare: Seq::new(128, |i: int| if i < values@.len() { values@[i] } else { u64::MAX }),
                ..old(self)@
            }),
    {
        let mut i: usize = 0;
        while i < MAX_HARTS
            invariant
                i <= MAX_HARTS,
                self.mtime == old(self).mtime,
                self.msip@ == old(self).msip@,
                self.num_harts == old(self).num_harts,
                forall|j: int| 0 <= j < i ==> self.mtime_compare@[j] == (if j < values@.len() { values@[j] } else { u64::MAX }),
            decreases MAX_HARTS - i,
        {
            if i < values.len() {
                self.mtime_compare[i] = values[i];
            } else {
                self.mtime_compare[i] = u64::MAX;
            }
            i = i + 1;
        }
        proof {
            assert(self@.mtime_compare =~= Seq::new(128, |i: int| if i < values@.len() { values@[i] } else { u64::MAX }));
        }
    }

    /// Store into the CLINT register space (offsets relative to `CLINT_BASE`).
    /// MTIME and the hart count are read-only; reserved offsets and sizes are ignored.
    pub fn store(&mut self, offset: u64, size: u64, value: u64)
        ensures
            final(self)@ == store_spec(old(self)@, offset, size, value),
    {
        if size == 4 && offset >= MSIP_OFFSET && offset < MSIP_OFFSET + 4 * 128 {
            let hart_idx = ((offset - MSIP_OFFSET) / 4) as usize;
            self.msip[hart_idx] = (value & 1) as u32;
        } else if offset == MTIME_OFFSET || (offset == MTIME_OFFSET + 4 && size == 4) {
        } else if size == 8 && offset >= MTIMECMP_OFFSET && offset < MTIMECMP_OFFSET + 8 * 128 {
            let hart_idx = ((offset - MTIMECMP_OFFSET) / 8) as usize;
            self.mtime_compare[hart_idx] = value;
        } else if size == 4 && offset >= MTIMECMP_OFFSET && offset < MTIMECMP_OFFSET + 8 * 128 {
            let hart_idx = ((offset - MTIMECMP_OFFSET) / 8) as usize;
            let sub_offset = (offset - MTIMECMP_OFFSET) % 8;
            let current = self.mtime_compare[hart_idx];
            if sub_offset == 0 {
                self.mtime_compare[hart_idx] = replace_low(current, value);
            } else if sub_offset == 4 {
                self.mtime_compare[hart_idx] = replace_high(current, value);
            }
        }
    }
}

/// Well-formed abstract CLINT state: one MSIP word and one compare value per hart.
pub open spec fn view_wf(v: ClintView) -> bool {
    v.msip.len() == MAX_HARTS && v.mtime_compare.len() == MAX_HARTS
}

/// Every CLINT value has a well-formed view.
pub proof fn lemma_clint_view_wf(c: &Clint)
    ensures
        view_wf(c@),
{
}

/// A 32-bit MSIP store is read back as its bit 0.
pub proof fn lemma_msip_store_load(v: ClintView, hart: u64, value: u64)
    requires
        view_wf(v),
        hart < MAX_HARTS,
    ensures
        load_spec(store_spec(v, (MSIP_OFFSET + 4 * hart) as u64, 4, value), (MSIP_OFFSET + 4 * hart) as u64, 4) == value & 1,
{
    let o = (MSIP_OFFSET + 4 * hart) as u64;
    assert(msip_index(o) == hart);
    assert(value & 1 <= 1) by (bit_vector);
}

/// A 64-bit timer-compare store is read back unchanged.
pub proof fn lemma_compare_store_load(v: ClintView, hart: u64, value: u64)
    requires
        view_wf(v),
        hart < MAX_HARTS,
    ensures
        load_spec(store_spec(v, (MTIMECMP_OFFSET + 8 * hart) as u64, 8, value), (MTIMECMP_OFFSET + 8 * hart) as u64, 8) == value,
{
    let o = (MTIMECMP_OFFSET + 8 * hart) as u64;
    assert(mtime_compare_index(o) == hart);
}

/// Two 32-bit stores, low half then high half, build the 64-bit compare value.
pub proof fn lemma_compare_split_store(v: ClintView, hart: u64, lo: u64, hi: u64)
    requires
        view_wf(v),
        hart < MAX_HARTS,
        lo <= 0xffff_ffff,
        hi <= 0xffff_ffff,
    ensures
        load_spec(
            store_spec(store_spec(v, (MTIMECMP_OFFSET + 8 * hart) as u64, 4, lo), (MTIMECMP_OFFSET + 8 * hart + 4) as u64, 4, hi),
            (MTIMECMP_OFFSET + 8 * hart) as u64,
            8,
        ) == (hi << 32u64) | lo,
{
    let o = (MTIMECMP_OFFSET + 8 * hart) as u64;
    let o4 = (o + 4) as u64;
    assert(mtime_compare_index(o) == hart);
    assert(mtime_compare_index(o4) == hart);
    assert((o - MTIMECMP_OFFSET) % 8 == 0);
    assert((o4 - MTIMECMP_OFFSET) % 8 == 4);
    let cur = v.mtime_compare[hart as int];
    assert(with_high32(with_low32(cur, lo), hi) == (hi << 32u64) | lo) by (bit_vector)
        requires lo <= 0xffff_ffff, hi <= 0xffff_ffff;
}

/// MTIME cannot be written through the register space.
pub proof fn lemma_mtime_read_only(v: ClintView, size: u64, value: u64)
    ensures
        store_spec(v, MTIME_OFFSET, size, value) == v,
        store_spec(v, MTIME_OFFSET, size, value).mtime == v.mtime,
{
}

/// Restoring a snapshot of the MSIP words and compare values gives them back.
pub proof fn lemma_snapshot_restore(v: ClintView)
    requires
        view_wf(v),
    ensures
        Seq::new(128, |i: int| if i < v.msip.len() { v.msip[i] } else { 0u32 }) == v.msip,
        Seq::new(128, |i: int| if i < v.mtime_compare.len() { v.mtime_compare[i] } else { u64::MAX }) == v.mtime_compare,
{
    assert(Seq::new(128, |i: int| if i < v.msip.len() { v.msip[i] } else { 0u32 }) =~= v.msip);
    assert(Seq::new(128, |i: int| if i < v.mtime_compare.len() { v.mtime_compare[i] } else { u64::MAX }) =~= v.mtime_compare);
}

} // verus!
