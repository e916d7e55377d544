//! Core Local Interruptor (CLINT), first implementation: the same register
//! map as `devices::clint`, with snapshot restore that only overwrites the
//! slots it is given.

use vstd::prelude::*;
pub use crate::devices::clint::{
    MAX_HARTS, MSIP_OFFSET, MTIME_OFFSET, MTIMECMP_OFFSET, HART_COUNT_OFFSET,
};
use crate::devices::clint::{
    ClintView, MTIME_INCREMENT, clamp_harts, view_wf, load_spec, store_spec, reset_state, hart_slot,
    hart_update, with_low32, with_high32,
};

verus! {

pub const CLINT_BASE: u64 = 0x0200_0000;
pub const CLINT_SIZE: u64 = 0x10000;

fn replace_low(current: u64, low: u64) -> (r: u64)
    ensures
        r == with_low32(current, low),
{
    (current & 0xFFFF_FFFF_0000_0000) | (low & 0xFFFF_FFFF)
}

fn replace_high(current: u64, high: u64) -> (r: u64)
    ensures
        r == with_high32(current, high),
{
    (current & 0x0000_0000_FFFF_FFFF) | ((high & 0xFFFF_FFFF) << 32)
}

/// Core Local Interruptor (CLINT) - Timer and Software Interrupts.
pub struct Clint {
    /// Machine timer counter.
    mtime: u64,
    /// Per-hart Machine Software Interrupt Pending words (only bit 0 meaningful).
    msip: [u32; 128],
    /// Per-hart Machine Timer Compare registers.
    mtime_compare: [u64; 128],
    /// Number of harts in the system.
    num_harts: usize,
}

impl View for Clint {
    type V = ClintView;

    closed spec fn view(&self) -> ClintView {
        ClintView {
            mtime: self.mtime,
            msip: self.msip@,
            mtime_compare: self.mtime_compare@,
            num_harts: self.num_harts,
        }
    }
}

impl Clint {
    /// Create a CLINT with one hart.
    pub fn new() -> (r: Self)
        ensures
            reset_state(r@, 1),
    {
        Self::with_harts(1)
    }

    /// Create a new CLINT with a specific hart count.
    pub fn with_harts(num_harts: usize) -> (r: Self)
        ensures
            reset_state(r@, num_harts),
    {
        let n = if num_harts < MAX_HARTS { num_harts } else { MAX_HARTS };
        let r = Self { mtime: 0, msip: [0u32; 128], mtime_compare: [u64::MAX; 128], num_harts: n };
        r
    }

    /// Set the number of harts (clamped to `MAX_HARTS`).
    pub fn set_num_harts(&mut self, num_harts: usize)
        ensures
            final(self)@ == (ClintView { num_harts: clamp_harts(num_harts), ..old(self)@ }),
    {
        self.num_harts = if num_harts < MAX_HARTS { num_harts } else { MAX_HARTS };
    }

    /// Get the number of harts.
    pub fn num_harts(&self) -> (r: usize)
        ensures
            r == self@.num_harts,
    {
        self.num_harts
    }

    /// Returns the current mtime value.
    pub fn mtime(&self) -> (r: u64)
        ensures
            r == self@.mtime,
    {
        self.mtime
    }

    /// Sets mtime to a specific value (used for snapshot restore).
    pub fn set_mtime(&mut self, val: u64)
        ensures
            final(self)@ == (ClintView { mtime: val, ..old(self)@ }),
    {
        self.mtime = val;
    }

    /// Advance mtime by one tick (wrapping on overflow).
    pub fn tick(&mut self)
        ensures
            final(self)@ == (ClintView {
                mtime: vstd::wrapping::u64_specs::wrapping_add(old(self)@.mtime, MTIME_INCREMENT),
                ..old(self)@
            }),
    {
        self.mtime = self.mtime.wrapping_add(MTIME_INCREMENT);
    }

    /// Same as `tick`.
    pub fn increment(&mut self)
        ensures
            final(self)@ == (ClintView {
                mtime: vstd::wrapping::u64_specs::wrapping_add(old(self)@.mtime, MTIME_INCREMENT),
                ..old(self)@
            }),
    {
        self.tick();
    }

    /// Host time synchronisation: the timer is deterministic, so this changes nothing.
    pub fn sync_time_micros(&self, _micros: u64) {
    }

    /// Get msip value for a hart (0 for a hart out of range).
    pub fn get_msip(&self, hart: usize) -> (r: u32)
        ensures
            r == (if hart < MAX_HARTS { self@.msip[hart as int] } else { 0 }),
    {
        if hart < MAX_HARTS {
            self.msip[hart]
        } else {
            0
        }
    }

    /// Get the timer compare value for a hart (`u64::MAX` for a hart out of range).
    pub fn get_mtimecmp(&self, hart: usize) -> (r: u64)
        ensures
            r == (if hart < MAX_HARTS { hart_slot(self@.mtime_compare, hart) } else { u64::MAX }),
    {
        if hart < MAX_HARTS {
            self.mtime_compare[hart]
        } else {
            u64::MAX
        }
    }

    /// Set the timer compare value for a hart; out-of-range harts are ignored.
    pub fn set_mtimecmp(&mut self, hart: usize, value: u64)
        ensures
            final(self)@ == (if hart < MAX_HARTS {
                ClintView { mtime_compare: hart_update(old(self)@.mtime_compare, hart, value), ..old(self)@ }
            } else {
                old(self)@
            }),
    {
        if hart < MAX_HARTS {
            self.mtime_compare[hart] = value;
        }
    }

    /// Timer interrupt pending for a hart: `mtime` has reached its compare value.
    pub fn is_timer_pending(&self, hart_id: usize) -> (r: bool)
        ensures
            r == (hart_id < MAX_HARTS && self@.mtime >= self@.mtime_compare[hart_id as int]),
    {
        if hart_id >= MAX_HARTS {
            return false;
        }
        self.mtime >= self.mtime_compare[hart_id]
    }

    /// Software interrupt pending for a hart: bit 0 of its MSIP word.
    pub fn is_msip_pending(&self, hart_id: usize) -> (r: bool)
        ensures
            r == (hart_id < MAX_HARTS && self@.msip[hart_id as int] & 1 != 0),
    {
        if hart_id >= MAX_HARTS {
            return false;
        }
        (self.msip[hart_id] & 1) != 0
    }

    /// Both interrupt conditions for a hart: `(msip_pending, timer_pending)`.
    pub fn check_interrupts_for_hart(&self, hart_id: usize) -> (r: (bool, bool))
        ensures
            r.0 == (hart_id < MAX_HARTS && self@.msip[hart_id as int] & 1 != 0),
            r.1 == (hart_id < MAX_HARTS && self@.mtime >= self@.mtime_compare[hart_id as int]),
    {
        if hart_id >= MAX_HARTS {
            return (false, false);
        }
        let msip = (self.msip[hart_id] & 1) != 0;
        let timer = self.mtime >= self.mtime_compare[hart_id];
        (msip, timer)
    }

    /// Load from the CLINT register space (offsets relative to `CLINT_BASE`).
    /// Reserved offsets and sizes read as zero.
    pub fn load(&self, offset: u64, size: u64) -> (r: u64)
        ensures
            r == load_spec(self@, offset, size),
    {
        if offset == MTIME_OFFSET && size == 8 {
            self.mtime
        } else if offset == MTIME_OFFSET && size == 4 {
            self.mtime & 0xFFFF_FFFF
        } else if offset == MTIME_OFFSET + 4 && size == 4 {
            self.mtime >> 32
        } else if size == 4 && offset >= MSIP_OFFSET && offset < MSIP_OFFSET + 4 * 128 {
            let hart_idx = ((offset - MSIP_OFFSET) / 4) as usize;
            self.msip[hart_idx] as u64
        } else if size == 8 && offset >= MTIMECMP_OFFSET && offset < MTIMECMP_OFFSET + 8 * 128 {
            let hart_idx = ((offset - MTIMECMP_OFFSET) / 8) as usize;
            self.mtime_compare[hart_idx]
        } else if size == 4 && offset >= MTIMECMP_OFFSET && offset < MTIMECMP_OFFSET + 8 * 128 {
            let hart_idx = ((offset - MTIMECMP_OFFSET) / 8) as usize;
            let sub_offset = (offset - MTIMECMP_OFFSET) % 8;
            let val = self.mtime_compare[hart_idx];
            if sub_offset == 0 {
                val & 0xFFFF_FFFF
            } else if sub_offset == 4 {
                val >> 32
            } else {
                0
            }
        } else if offset == HART_COUNT_OFFSET && (size == 4 || size == 8) {
            self.num_harts as u64
        } else {
            0
        }
    }

    /// Copy of all MSIP values.
    pub fn get_msip_array(&self) -> (r: [u32; 128])
        ensures
            r@ == self@.msip,
    {
        self.msip
    }

    /// Copy of all MTIMECMP values.
    pub fn get_mtimecmp_array(&self) -> (r: [u64; 128])
        ensures
            r@ == self@.mtime_compare,
    {
        self.mtime_compare
    }

    /// Restore MSIP values: the first `min(len, MAX_HARTS)` slots are copied,
    /// the other slots keep their value.
    pub fn set_msip_array(&mut self, values: &[u32])
        ensures
            final(self)@ == (ClintView {
                msip: Seq::new(128, |i: int| if i < values@.len() { values@[i] } else { old(self)@.msip[i] }),
                ..old(self)@
            }),
    {
        let len = if values.len() < MAX_HARTS { values.len() } else { MAX_HARTS };
        let mut i: usize = 0;
        while i < len
            invariant
                len <= MAX_HARTS,
                len <= values@.len(),
                len == values@.len() || len == MAX_HARTS,
                i <= len,
                self.mtime == old(self).mtime,
                self.mtime_compare@ == old(self).mtime_compare@,
                self.num_harts == old(self).num_harts,
                forall|j: int| 0 <= j < i ==> self.msip@[j] == values@[j],
                forall|j: int| i <= j < MAX_HARTS ==> self.msip@[j] == old(self).msip@[j],
            decreases len - i,
        {
            self.msip[i] = values[i];
            i = i + 1;
        }
        proof {
            assert(self@.msip =~= Seq::new(128, |i: int| if i < values@.len() { values@[i] } else { old(self)@.msip[i] }));
        }
    }

    /// Restore timer compare values: the first `min(len, MAX_HARTS)` slots are
    /// copied, the other slots keep their value.
    pub fn set_mtimecmp_array(&mut self, values: &[u64])
        ensures
            final(self)@ == (ClintView {
                mtime_compare: Seq::new(128, |i: int| if i < values@.len() { values@[i] } else { old(self)@.mtime_compare[i] }),
                ..old(self)@
            }),
    {
        let mut i: usize = 0;
        while i < MAX_HARTS && i < values.len()
            invariant
                i <= MAX_HARTS,
                i <= values@.len(),
                self.mtime == old(self).mtime,
                self.msip@ == old(self).msip@,
                self.num_harts == old(self).num_harts,
                forall|j: int| 0 <= j < i ==> self.mtime_compare@[j] == values@[j],
                forall|j: int| i <= j < 128 ==> self.mtime_compare@[j] == old(self).mtime_compare@[j],
            decreases MAX_HARTS - i,
        {
            self.mtime_compare[i] = values[i];
            i = i + 1;
        }
        proof {
            assert(self@.mtime_compare =~= Seq::new(128, |i: int| if i < values@.len() { values@[i] } else { old(self)@.mtime_compare[i] }));
        }
    }

    /// Store into the CLINT register space (offsets relative to `CLINT_BASE`).
    /// MTIME and the hart count are read-only; reserved offsets and sizes are ignored.
    pub fn store(&mut self, offset: u64, size: u64, value: u64)
        ensures
            final(self)@ == store_spec(old(self)@, offset, size, value),
    {
        if size == 4 && offset >= MSIP_OFFSET && offset < MSIP_OFFSET + 4 * 128 {
            let hart_idx = ((offset - MSIP_OFFSET) / 4) as usize;
            self.msip[hart_idx] = (value & 1) as u32;
        } else if offset == MTIME_OFFSET || (offset == MTIME_OFFSET + 4 && size == 4) {
        } else if size == 8 && offset >= MTIMECMP_OFFSET && offset < MTIMECMP_OFFSET + 8 * 128 {
            let hart_idx = ((offset - MTIMECMP_OFFSET) / 8) as usize;
            self.mtime_compare[hart_idx] = value;
        } else if size == 4 && offset >= MTIMECMP_OFFSET && offset < MTIMECMP_OFFSET + 8 * 128 {
            let hart_idx = ((offset - MTIMECMP_OFFSET) / 8) as usize;
            let sub_offset = (offset - MTIMECMP_OFFSET) % 8;
            let current = self.mtime_compare[hart_idx];
            if sub_offset == 0 {
                self.mtime_compare[hart_idx] = replace_low(current, value);
            } else if sub_offset == 4 {
                self.mtime_compare[hart_idx] = replace_high(current, value);
            }
        }
    }
}

/// Every CLINT value has a well-formed view: one MSIP word and one compare
/// register per possible hart.
pub proof fn lemma_clint_view_wf(c: &Clint)
    ensures
        view_wf(c@),
{
}

} // verus!
