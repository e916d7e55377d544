//! Platform-Level Interrupt Controller (PLIC).
//!
//! The authoritative registers are kept together with per-register caches used
//! for fast polling; every operation keeps each cache equal to its register.

use vstd::prelude::*;
use crate::dram::MemoryError;

verus! {

pub const PLIC_BASE: u64 = 0x0C00_0000;
pub const PLIC_SIZE: u64 = 0x400_0000;

pub const UART_IRQ: u32 = 10;
pub const VIRTIO0_IRQ: u32 = 1;

/// Number of interrupt sources (source 0 is reserved).
pub const NUM_SOURCES: usize = 32;
/// Number of interrupt contexts: M-mode (2*N) and S-mode (2*N+1) for each hart.
pub const NUM_CONTEXTS: usize = 256;

/// Abstract PLIC registers.
pub struct PlicView {
    pub priority: Seq<u32>,
    pub pending: u32,
    pub enable: Seq<u32>,
    pub threshold: Seq<u32>,
    pub active: Seq<u32>,
}

/// Bit `i` of `x` is set.
pub open spec fn bit(x: u32, i: u32) -> bool {
    (x >> i) & 1u32 == 1u32
}

/// Source `s` may be delivered to context `ctx`: pending, enabled, above the
/// context threshold and not already in flight.
pub open spec fn eligible(v: PlicView, s: u32, ctx: int) -> bool {
    &&& bit(v.pending, s)
    &&& bit(v.enable[ctx], s)
    &&& v.priority[s as int] > v.threshold[ctx]
    &&& !bit(v.active[ctx], s)
}

/// Some source in `1..NUM_SOURCES` is eligible for `ctx`.
pub open spec fn any_eligible(v: PlicView, ctx: int) -> bool {
    exists|s: u32| 1 <= s < NUM_SOURCES && eligible(v, s, ctx)
}

/// `r` is the source a claim on `ctx` returns: 0 when no source is eligible,
/// otherwise the eligible source of highest priority, the lowest-numbered one
/// among equal priorities.
pub open spec fn is_claim_result(v: PlicView, ctx: int, r: u32) -> bool {
    if r == 0 {
        !any_eligible(v, ctx)
    } else {
        &&& 1 <= r < NUM_SOURCES
        &&& eligible(v, r, ctx)
        &&& forall|s: u32| 1 <= s < NUM_SOURCES && eligible(v, s, ctx) ==>
                v.priority[s as int] < v.priority[r as int]
                || (v.priority[s as int] == v.priority[r as int] && r <= s)
    }
}

/// Registers after a claim on `ctx` returned `r`: the source is marked in flight.
pub open spec fn claim_update(v: PlicView, ctx: int, r: u32) -> PlicView {
    if r == 0 {
        v
    } else {
        PlicView { active: v.active.update(ctx, v.active[ctx] | (1u32 << r)), ..v }
    }
}

/// Registers after the completion of source `id` on `ctx`.
pub open spec fn complete_update(v: PlicView, ctx: int, id: u32) -> PlicView {
    if 0 < id < NUM_SOURCES {
        PlicView { active: v.active.update(ctx, v.active[ctx] & !(1u32 << id)), ..v }
    } else {
        v
    }
}

/// Fast check: some enabled pending source of `ctx` has priority above its threshold.
pub open spec fn fast_pending(v: PlicView, ctx: int) -> bool {
    &&& 0 <= ctx < NUM_CONTEXTS
    &&& exists|s: u32| 1 <= s < NUM_SOURCES
            && bit(v.pending & v.enable[ctx], s)
            && v.priority[s as int] > v.threshold[ctx]
}

/// The context-register block of the context whose threshold register is at `offset`.
pub open spec fn context_of(offset: u64) -> int {
    ((offset - 0x200000) / 0x1000) as int
}

pub open spec fn enable_ctx(offset: u64) -> int {
    ((offset - 0x2000) / 0x80) as int
}

pub open spec fn in_enable(offset: u64) -> bool {
    0x2000 <= offset < 0x2000 + 0x80 * NUM_CONTEXTS && (offset - 0x2000) % 0x80 == 0
}

pub open spec fn is_threshold_reg(offset: u64) -> bool {
    offset >= 0x200000 && context_of(offset) < NUM_CONTEXTS
        && offset == 0x200000 + 0x1000 * context_of(offset)
}

pub open spec fn is_claim_reg(offset: u64) -> bool {
    offset >= 0x200000 && context_of(offset) < NUM_CONTEXTS
        && offset == 0x200000 + 0x1000 * context_of(offset) + 4
}

/// Value of a 32-bit register load that has no side effect.
pub open spec fn load_plain(v: PlicView, offset: u64) -> u64 {
    if offset < 0x1000 && offset / 4 < NUM_SOURCES {
        v.priority[(offset / 4) as int] as u64
    } else if offset == 0x1000 {
        v.pending as u64
    } else if in_enable(offset) {
        v.enable[enable_ctx(offset)] as u64
    } else if is_threshold_reg(offset) {
        v.threshold[context_of(offset)] as u64
    } else {
        0
    }
}

/// Registers after a store of `value` at `offset` with access width `size`.
pub open spec fn store_spec(v: PlicView, offset: u64, size: u64, value: u64) -> PlicView {
    let val = value as u32;
    if size != 4 {
        v
    } else if offset < 0x1000 {
        if offset / 4 < NUM_SOURCES {
            PlicView { priority: v.priority.update((offset / 4) as int, val), ..v }
        } else {
            v
        }
    } else if in_enable(offset) {
        PlicView { enable: v.enable.update(enable_ctx(offset), val), ..v }
    } else if is_threshold_reg(offset) {
        PlicView { threshold: v.threshold.update(context_of(offset), val), ..v }
    } else if is_claim_reg(offset) {
        complete_update(v, context_of(offset), val & 0xffff)
    } else {
        v
    }
}

/// Every register array has its architectural size.
pub open spec fn view_wf(v: PlicView) -> bool {
    &&& v.priority.len() == NUM_SOURCES
    &&& v.enable.len() == NUM_CONTEXTS
    &&& v.threshold.len() == NUM_CONTEXTS
    &&& v.active.len() == NUM_CONTEXTS
}

proof fn lemma_bit_facts(x: u32, y: u32, s: u32)
    requires
        s < 32,
    ensures
        ((x & (1u32 << s)) != 0) == bit(x, s),
        bit(x & y, s) == (bit(x, s) && bit(y, s)),
        x == 0 ==> !bit(x, s),
        bit(x | (1u32 << s), s),
        !bit(x & !(1u32 << s), s),
        ((x >> s) & 1u32 == 0u32) == !bit(x, s),
{
    assert({
        &&& ((x & (1u32 << s)) != 0) == ((x >> s) & 1u32 == 1u32)
        &&& (((x & y) >> s) & 1u32 == 1u32) == (((x >> s) & 1u32 == 1u32) && ((y >> s) & 1u32 == 1u32))
        &&& (x == 0 ==> (x >> s) & 1u32 != 1u32)
        &&& ((x | (1u32 << s)) >> s) & 1u32 == 1u32
        &&& ((x & !(1u32 << s)) >> s) & 1u32 != 1u32
        &&& ((x >> s) & 1u32 == 0u32) == !((x >> s) & 1u32 == 1u32)
    }) by (bit_vector)
        requires s < 32;
}

/// `base` with its first `min(len)` elements taken from `values`.
pub open spec fn overlay(base: Seq<u32>, values: Seq<u32>) -> Seq<u32> {
    Seq::new(base.len(), |i: int| if i < values.len() { values[i] } else { base[i] })
}

fn copy_contexts(a: &[u32; 256]) -> (r: Vec<u32>)
    ensures
        r@ == a@,
{
    let mut r: Vec<u32> = Vec::new();
    let mut i: usize = 0;
    while i < 256
        invariant
            i <= 256,
            r@ == a@.subrange(0, i as int),
        decreases 256 - i,
    {
        r.push(a[i]);
        i = i + 1;
        proof {
            assert(r@ =~= a@.subrange(0, i as int));
        }
    }
    proof {
        assert(r@ =~= a@);
    }
    r
}

/// Platform-Level Interrupt Controller.
pub struct Plic {
    priority: [u32; 32],
    /// Level-triggered mirror of device IRQ lines (bit per source).
    pending: u32,
    enable: [u32; 256],
    threshold: [u32; 256],
    /// Per-context in-flight IRQs (claimed but not completed).
    active: [u32; 256],
    pending_cache: u32,
    enable_cache: [u32; 256],
    threshold_cache: [u32; 256],
    priority_cache: [u32; 32],
}

impl View for Plic {
    type V = PlicView;

    closed spec fn view(&self) -> PlicView {
        PlicView {
            priority: self.priority@,
            pending: self.pending,
            enable: self.enable@,
            threshold: self.threshold@,
            active: self.active@,
        }
    }
}

impl Plic {
    /// Every cache holds the value of its register.
    pub closed spec fn caches_synced(&self) -> bool {
        &&& self.pending_cache == self.pending
        &&& self.enable_cache@ == self.enable@
        &&& self.threshold_cache@ == self.threshold@
        &&& self.priority_cache@ == self.priority@
    }

    /// M-mode context ID of a hart.
    pub fn m_context(hart_id: usize) -> (r: usize)
        requires
            hart_id * 2 <= usize::MAX,
        ensures
            r == hart_id * 2,
    {
        hart_id * 2
    }

    /// S-mode context ID of a hart.
    pub fn s_context(hart_id: usize) -> (r: usize)
        requires
            hart_id * 2 + 1 <= usize::MAX,
        ensures
            r == hart_id * 2 + 1,
    {
        hart_id * 2 + 1
    }

    /// A PLIC with every register zero.
    pub fn new() -> (r: Self)
        ensures
            r.caches_synced(),
            view_wf(r@),
            r@.pending == 0,
            forall|i: int| 0 <= i < NUM_SOURCES ==> r@.priority[i] == 0,
            forall|i: int| 0 <= i < NUM_CONTEXTS ==> r@.enable[i] == 0 && r@.threshold[i] == 0 && r@.active[i] == 0,
    {
        Plic {
            priority: [0u32; 32],
            pending: 0,
            enable: [0u32; 256],
            threshold: [0u32; 256],
            active: [0u32; 256],
            pending_cache: 0,
            enable_cache: [0u32; 256],
            threshold_cache: [0u32; 256],
            priority_cache: [0u32; 32],
        }
    }

    /// Copy every register into its cache.
    pub fn sync_caches(&mut self)
        ensures
            final(self).caches_synced(),
            final(self)@ == old(self)@,
    {
        self.pending_cache = self.pending;
        self.enable_cache = self.enable;
        self.threshold_cache = self.threshold;
        self.priority_cache = self.priority;
    }

    /// Pending bits, read from the cache.
    pub fn pending_cached(&self) -> (r: u32)
        requires
            self.caches_synced(),
        ensures
            r == self@.pending,
    {
        self.pending_cache
    }

    /// Enable bits of a context, read from the cache (0 out of range).
    pub fn enable_cached(&self, ctx: usize) -> (r: u32)
        requires
            self.caches_synced(),
        ensures
            r == (if ctx < NUM_CONTEXTS { self@.enable[ctx as int] } else { 0 }),
    {
        if ctx < NUM_CONTEXTS {
            self.enable_cache[ctx]
        } else {
            0
        }
    }

    /// Threshold of a context, read from the cache (0 out of range).
    pub fn threshold_cached(&self, ctx: usize) -> (r: u32)
        requires
            self.caches_synced(),
        ensures
            r == (if ctx < NUM_CONTEXTS { self@.threshold[ctx as int] } else { 0 }),
    {
        if ctx < NUM_CONTEXTS {
            self.threshold_cache[ctx]
        } else {
            0
        }
    }

    /// Priority of a source, read from the cache (0 out of range).
    pub fn priority_cached(&self, source: usize) -> (r: u32)
        requires
            self.caches_synced(),
        ensures
            r == (if source < NUM_SOURCES { self@.priority[source as int] } else { 0 }),
    {
        if source < NUM_SOURCES {
            self.priority_cache[source]
        } else {
            0
        }
    }
    /// Fast check on the caches: some enabled pending source of `ctx` has a
    /// priority above the context threshold (in-flight sources are not excluded).
    pub fn is_interrupt_pending_for_fast(&self, ctx: usize) -> (r: bool)
        requires
            self.caches_synced(),
        ensures
            r == fast_pending(self@, ctx as int),
    {
        if ctx >= NUM_CONTEXTS {
            return false;
        }
        let pending = self.pending_cache;
        let enable = self.enable_cache[ctx];
        let threshold = self.threshold_cache[ctx];
        let candidates = pending & enable;
        if candidates == 0 {
            proof {
                assert forall|s: u32| 1 <= s < NUM_SOURCES implies !bit(candidates, s) by {
                    lemma_bit_facts(candidates, 0, s);
                }
            }
            return false;
        }
        let mut source: u32 = 1;
        while source < 32
            invariant
                1 <= source <= 32,
                self.caches_synced(),
                0 <= ctx < NUM_CONTEXTS,
                candidates == self@.pending & self@.enable[ctx as int],
                threshold == self@.threshold[ctx as int],
                forall|s: u32| 1 <= s < source ==>
                    !(bit(candidates, s) && self@.priority[s as int] > threshold),
            decreases 32 - source,
        {
            proof {
                lemma_bit_facts(candidates, 0, source);
            }
            if (candidates & (1u32 << source)) != 0 {
                let priority = self.priority_cache[source as usize];
                if priority > threshold {
                    proof {
                        assert(bit(self@.pending & self@.enable[ctx as int], source)
                            && self@.priority[source as int] > self@.threshold[ctx as int]);
                    }
                    return true;
                }
            }
            source = source + 1;
        }
        false
    }

    /// Cheapest check on the caches: some source is both pending and enabled for `ctx`.
    pub fn has_pending_candidate(&self, ctx: usize) -> (r: bool)
        requires
            self.caches_synced(),
        ensures
            r == (ctx < NUM_CONTEXTS && self@.pending & self@.enable[ctx as int] != 0),
    {
        if ctx >= NUM_CONTEXTS {
            return false;
        }
        let pending = self.pending_cache;
        let enable = self.enable_cache[ctx];
        (pending & enable) != 0
    }

    /// Mark a source pending (edge to level); sources out of range are ignored.
    pub fn update_pending(&mut self, source: u32)
        requires
            old(self).caches_synced(),
        ensures
            final(self).caches_synced(),
            final(self)@ == (if source < 32 {
                PlicView { pending: old(self)@.pending | (1u32 << source), ..old(self)@ }
            } else {
                old(self)@
            }),
    {
        if source < 32 {
            self.pending = self.pending | (1u32 << source);
            self.pending_cache = self.pending;
        }
    }

    /// Set the level of a source line; sources out of range are ignored.
    pub fn set_source_level(&mut self, source: u32, level: bool)
        requires
            old(self).caches_synced(),
        ensures
            final(self).caches_synced(),
            final(self)@ == (if source >= 32 {
                old(self)@
            } else if level {
                PlicView { pending: old(self)@.pending | (1u32 << source), ..old(self)@ }
            } else {
                PlicView { pending: old(self)@.pending & !(1u32 << source), ..old(self)@ }
            }),
    {
        if source >= 32 {
            return;
        }
        if level {
            self.pending = self.pending | (1u32 << source);
        } else {
            self.pending = self.pending & !(1u32 << source);
        }
        self.pending_cache = self.pending;
    }

    /// Copy of the priority registers.
    pub fn get_priority(&self) -> (r: Vec<u32>)
        ensures
            r@ == self@.priority,
    {
        let mut r: Vec<u32> = Vec::new();
        let mut i: usize = 0;
        while i < NUM_SOURCES
            invariant
                i <= NUM_SOURCES,
                r@ == self@.priority.subrange(0, i as int),
            decreases NUM_SOURCES - i,
        {
            r.push(self.priority[i]);
            i = i + 1;
            proof {
                assert(r@ =~= self@.priority.subrange(0, i as int));
            }
        }
        proof {
            assert(r@ =~= self@.priority);
        }
        r
    }

    /// Pending bits.
    pub fn get_pending(&self) -> (r: u32)
        ensures
            r == self@.pending,
    {
        self.pending
    }

    /// Copy of the enable registers.
    pub fn get_enable(&self) -> (r: Vec<u32>)
        ensures
            r@ == self@.enable,
    {
        copy_contexts(&self.enable)
    }

    /// Copy of the threshold registers.
    pub fn get_threshold(&self) -> (r: Vec<u32>)
        ensures
            r@ == self@.threshold,
    {
        copy_contexts(&self.threshold)
    }

    /// Copy of the in-flight registers.
    pub fn get_active(&self) -> (r: Vec<u32>)
        ensures
            r@ == self@.active,
    {
        copy_contexts(&self.active)
    }

    /// Restore priorities: the first `min(len, NUM_SOURCES)` registers are copied,
    /// the others keep their value.
    pub fn set_priority(&mut self, values: &[u32])
        requires
            old(self).caches_synced(),
        ensures
            final(self).caches_synced(),
            final(self)@ == (PlicView {
                priority: Seq::new(32, |i: int| if i < values@.len() { values@[i] } else { old(self)@.priority[i] }),
                ..old(self)@
            }),
    {
        let mut i: usize = 0;
        while i < NUM_SOURCES && i < values.len()
            invariant
                i <= NUM_SOURCES,
                i <= values@.len(),
                self.caches_synced(),
                self.pending == old(self).pending,
                self.enable@ == old(self).enable@,
                self.threshold@ == old(self).threshold@,
                self.active@ == old(self).active@,
                forall|j: int| 0 <= j < i ==> self.priority@[j] == values@[j],
                forall|j: int| i <= j < 32 ==> self.priority@[j] == old(self).priority@[j],
            decreases NUM_SOURCES - i,
        {
            self.priority[i] = values[i];
            self.priority_cache[i] = values[i];
            i = i + 1;
        }
        proof {
            assert(self@.priority =~= Seq::new(32, |i: int| if i < values@.len() { values@[i] } else { old(self)@.priority[i] }));
        }
    }

    /// Restore the pending bits.
    pub fn set_pending(&mut self, value: u32)
        requires
            old(self).caches_synced(),
        ensures
            final(self).caches_synced(),
            final(self)@ == (PlicView { pending: value, ..old(self)@ }),
    {
        self.pending = value;
        self.pending_cache = value;
    }

    /// Restore enables: the first `min(len, NUM_CONTEXTS)` registers are copied,
    /// the others keep their value.
    pub fn set_enable(&mut self, values: &[u32])
        requires
            old(self).caches_synced(),
        ensures
            final(self).caches_synced(),
            final(self)@ == (PlicView { enable: overlay(old(self)@.enable, values@), ..old(self)@ }),
    {
        let mut i: usize = 0;
        while i < NUM_CONTEXTS && i < values.len()
            invariant
                i <= NUM_CONTEXTS,
                i <= values@.len(),
                self.caches_synced(),
                self.pending == old(self).pending,
                self.priority@ == old(self).priority@,
                self.threshold@ == old(self).threshold@,
                self.active@ == old(self).active@,
                forall|j: int| 0 <= j < i ==> self.enable@[j] == values@[j],
                forall|j: int| i <= j < 256 ==> self.enable@[j] == old(self).enable@[j],
            decreases NUM_CONTEXTS - i,
        {
            self.enable[i] = values[i];
            self.enable_cache[i] = values[i];
            i = i + 1;
        }
        proof {
            assert(self@.enable =~= overlay(old(self)@.enable, values@));
        }
    }

    /// Restore thresholds: the first `min(len, NUM_CONTEXTS)` registers are copied,
    /// the others keep their value.
    pub fn set_threshold(&mut self, values: &[u32])
        requires
            old(self).caches_synced(),
        ensures
            final(self).caches_synced(),
            final(self)@ == (PlicView { threshold: overlay(old(self)@.threshold, values@), ..old(self)@ }),
    {
        let mut i: usize = 0;
        while i < NUM_CONTEXTS && i < values.len()
            invariant
                i <= NUM_CONTEXTS,
                i <= values@.len(),
                self.caches_synced(),
                self.pending == old(self).pending,
                self.priority@ == old(self).priority@,
                self.enable@ == old(self).enable@,
                self.active@ == old(self).active@,
                forall|j: int| 0 <= j < i ==> self.threshold@[j] == values@[j],
                forall|j: int| i <= j < 256 ==> self.threshold@[j] == old(self).threshold@[j],
            decreases NUM_CONTEXTS - i,
        {
            self.threshold[i] = values[i];
            self.threshold_cache[i] = values[i];
            i = i + 1;
        }
        proof {
            assert(self@.threshold =~= overlay(old(self)@.threshold, values@));
        }
    }

    /// Restore in-flight sets: the first `min(len, NUM_CONTEXTS)` registers are
    /// copied, the others keep their value.
    pub fn set_active(&mut self, values: &[u32])
        requires
            old(self).caches_synced(),
        ensures
            final(self).caches_synced(),
            final(self)@ == (PlicView { active: overlay(old(self)@.active, values@), ..old(self)@ }),
    {
        let mut i: usize = 0;
        while i < NUM_CONTEXTS && i < values.len()
            invariant
                i <= NUM_CONTEXTS,
                i <= values@.len(),
                self.caches_synced(),
                self.pending == old(self).pending,
                self.priority@ == old(self).priority@,
                self.enable@ == old(self).enable@,
                self.threshold@ == old(self).threshold@,
                forall|j: int| 0 <= j < i ==> self.active@[j] == values@[j],
                forall|j: int| i <= j < 256 ==> self.active@[j] == old(self).active@[j],
            decreases NUM_CONTEXTS - i,
        {
            self.active[i] = values[i];
            i = i + 1;
        }
        proof {
            assert(self@.active =~= overlay(old(self)@.active, values@));
        }
    }
    /// Source `source` may be delivered to context `ctx`.
    fn eligible_for_context(&self, source: u32, ctx: usize) -> (r: bool)
        requires
            source < 32,
            ctx < NUM_CONTEXTS,
        ensures
            r == eligible(self@, source, ctx as int),
    {
        proof {
            lemma_bit_facts(self.active[ctx as int], 0, source);
        }
        let pending = ((self.pending >> source) & 1) == 1;
        let enabled = ((self.enable[ctx] >> source) & 1) == 1;
        let over_threshold = self.priority[source as usize] > self.threshold[ctx];
        let not_active = ((self.active[ctx] >> source) & 1) == 0;
        pending && enabled && over_threshold && not_active
    }

    /// The source a claim on `ctx` delivers (0 when none), without side effect.
    fn best_candidate(&self, ctx: usize) -> (r: u32)
        requires
            ctx < NUM_CONTEXTS,
        ensures
            is_claim_result(self@, ctx as int, r),
    {
        let mut max_prio: u32 = 0;
        let mut max_id: u32 = 0;
        let mut i: u32 = 1;
        while i < 32
            invariant
                1 <= i <= 32,
                ctx < NUM_CONTEXTS,
                max_id == 0 ==> max_prio == 0,
                max_id == 0 ==> forall|s: u32| 1 <= s < i ==> !eligible(self@, s, ctx as int),
                max_id != 0 ==> 1 <= max_id < i && eligible(self@, max_id, ctx as int)
                    && max_prio == self@.priority[max_id as int],
                max_id != 0 ==> forall|s: u32| 1 <= s < i && eligible(self@, s, ctx as int) ==>
                    self@.priority[s as int] < max_prio
                    || (self@.priority[s as int] == max_prio && max_id <= s),
            decreases 32 - i,
        {
            if self.eligible_for_context(i, ctx) {
                let prio = self.priority[i as usize];
                if prio > max_prio {
                    max_prio = prio;
                    max_id = i;
                }
            }
            i = i + 1;
        }
        max_id
    }

    /// Claim the best eligible source of `ctx` (0 when none) and mark it in flight.
    pub fn claim_interrupt_for(&mut self, ctx: usize) -> (r: u32)
        requires
            old(self).caches_synced(),
            ctx < NUM_CONTEXTS,
        ensures
            final(self).caches_synced(),
            is_claim_result(old(self)@, ctx as int, r),
            final(self)@ == claim_update(old(self)@, ctx as int, r),
    {
        let max_id = self.best_candidate(ctx);
        if max_id != 0 {
            self.active[ctx] = self.active[ctx] | (1u32 << max_id);
        }
        max_id
    }

    /// Accurate check: some source is eligible for `ctx`.
    pub fn is_interrupt_pending_for(&self, ctx: usize) -> (r: bool)
        ensures
            r == (ctx < NUM_CONTEXTS && any_eligible(self@, ctx as int)),
    {
        if ctx >= NUM_CONTEXTS {
            return false;
        }
        let mut i: u32 = 1;
        while i < 32
            invariant
                1 <= i <= 32,
                ctx < NUM_CONTEXTS,
                forall|s: u32| 1 <= s < i ==> !eligible(self@, s, ctx as int),
            decreases 32 - i,
        {
            if self.eligible_for_context(i, ctx) {
                return true;
            }
            i = i + 1;
        }
        false
    }

    /// Accurate check for the S-mode context of hart 0.
    pub fn is_interrupt_pending(&self) -> (r: bool)
        ensures
            r == any_eligible(self@, 1),
    {
        self.is_interrupt_pending_for(1)
    }

    /// 32-bit register load. A load of a claim register claims an interrupt;
    /// other sizes and reserved offsets read as zero.
    pub fn load(&mut self, offset: u64, size: u64) -> (r: Result<u64, MemoryError>)
        requires
            old(self).caches_synced(),
        ensures
            final(self).caches_synced(),
            r is Ok,
            size == 4 && is_claim_reg(offset) ==> {
                &&& is_claim_result(old(self)@, context_of(offset), r->Ok_0 as u32)
                &&& r->Ok_0 < NUM_SOURCES
                &&& final(self)@ == claim_update(old(self)@, context_of(offset), r->Ok_0 as u32)
            },
            !(size == 4 && is_claim_reg(offset)) ==> {
                &&& r->Ok_0 == (if size == 4 { load_plain(old(self)@, offset) } else { 0 })
                &&& final(self)@ == old(self)@
            },
    {
        if size != 4 {
            return Ok(0);
        }
        if offset < 0x1000 {
            let idx = offset / 4;
            if idx < 32 {
                return Ok(self.priority[idx as usize] as u64);
            }
        }
        if offset == 0x1000 {
            return Ok(self.pending as u64);
        }
        if offset >= 0x2000 && offset < 0x2000 + 0x80 * 256 {
            let ctx = (offset - 0x2000) / 0x80;
            let inner = (offset - 0x2000) % 0x80;
            if ctx < 256 && inner == 0 {
                return Ok(self.enable[ctx as usize] as u64);
            }
        }
        if offset >= 0x200000 {
            let ctx = (offset - 0x200000) / 0x1000;
            if ctx < 256 {
                let base = 0x200000 + 0x1000 * ctx;
                if offset == base {
                    return Ok(self.threshold[ctx as usize] as u64);
                }
                if offset == base + 4 {
                    let claim = self.claim_interrupt_for(ctx as usize);
                    return Ok(claim as u64);
                }
            }
        }
        Ok(0)
    }

    /// 32-bit register store: priorities, enables, thresholds, and completion
    /// of an in-flight source through the claim register. Pending bits are
    /// read-only; other sizes and reserved offsets are ignored.
    pub fn store(&mut self, offset: u64, size: u64, value: u64) -> (r: Result<(), MemoryError>)
        requires
            old(self).caches_synced(),
        ensures
            final(self).caches_synced(),
            r is Ok,
            final(self)@ == store_spec(old(self)@, offset, size, value),
    {
        if size != 4 {
            return Ok(());
        }
        let val = value as u32;
        if offset < 0x1000 {
            let idx = offset / 4;
            if idx < 32 {
                self.priority[idx as usize] = val;
                self.priority_cache[idx as usize] = val;
            }
            return Ok(());
        }
        if offset == 0x1000 {
            return Ok(());
        }
        if offset >= 0x2000 && offset < 0x2000 + 0x80 * 256 {
            let ctx = (offset - 0x2000) / 0x80;
            let inner = (offset - 0x2000) % 0x80;
            if ctx < 256 && inner == 0 {
                self.enable[ctx as usize] = val;
                self.enable_cache[ctx as usize] = val;
            }
            return Ok(());
        }
        if offset >= 0x200000 {
            let ctx = (offset - 0x200000) / 0x1000;
            if ctx < 256 {
                let base = 0x200000 + 0x1000 * ctx;
                if offset == base {
                    self.threshold[ctx as usize] = val;
                    self.threshold_cache[ctx as usize] = val;
                    return Ok(());
                }
                if offset == base + 4 {
                    let id = val & 0xffff;
                    if id > 0 && id < 32 {
                        self.active[ctx as usize] = self.active[ctx as usize] & !(1u32 << id);
                    }
                    return Ok(());
                }
            }
            return Ok(());
        }
        Ok(())
    }
}

/// A claim result is determined by the registers: at most one source satisfies
/// the claim characterisation.
pub proof fn lemma_claim_result_unique(v: PlicView, ctx: int, r1: u32, r2: u32)
    requires
        is_claim_result(v, ctx, r1),
        is_claim_result(v, ctx, r2),
    ensures
        r1 == r2,
{
    if r1 != 0 && r2 != 0 {
        assert(eligible(v, r1, ctx) && eligible(v, r2, ctx));
    } else if r1 != 0 {
        assert(eligible(v, r1, ctx));
    } else if r2 != 0 {
        assert(eligible(v, r2, ctx));
    }
}

/// A claimed source is in flight: it is not delivered again until completed.
pub proof fn lemma_claimed_not_reclaimed(v: PlicView, ctx: int, r: u32)
    requires
        view_wf(v),
        0 <= ctx < NUM_CONTEXTS,
        r != 0,
        is_claim_result(v, ctx, r),
    ensures
        !eligible(claim_update(v, ctx, r), r, ctx),
{
    lemma_bit_facts(v.active[ctx], 0, r);
}

/// Completing the source a claim returned restores the in-flight set.
pub proof fn lemma_claim_complete_restores(v: PlicView, ctx: int, r: u32)
    requires
        view_wf(v),
        0 <= ctx < NUM_CONTEXTS,
        r != 0,
        is_claim_result(v, ctx, r),
    ensures
        complete_update(claim_update(v, ctx, r), ctx, r) == v,
{
    let a = v.active[ctx];
    assert(((a >> r) & 1u32 != 1u32) ==> ((a | (1u32 << r)) & !(1u32 << r)) == a) by (bit_vector)
        requires r < 32;
    let w = complete_update(claim_update(v, ctx, r), ctx, r);
    assert(w.active =~= v.active);
}

/// The fast check never misses an interrupt the accurate check reports.
pub proof fn lemma_accurate_implies_fast(v: PlicView, ctx: int)
    requires
        view_wf(v),
        0 <= ctx < NUM_CONTEXTS,
        any_eligible(v, ctx),
    ensures
        fast_pending(v, ctx),
{
    let s = choose|s: u32| 1 <= s < NUM_SOURCES && eligible(v, s, ctx);
    lemma_bit_facts(v.pending, v.enable[ctx], s);
    assert(bit(v.pending & v.enable[ctx], s) && v.priority[s as int] > v.threshold[ctx]);
}

/// With nothing in flight on a context, the fast and accurate checks agree.
pub proof fn lemma_fast_exact_when_idle(v: PlicView, ctx: int)
    requires
        view_wf(v),
        0 <= ctx < NUM_CONTEXTS,
        v.active[ctx] == 0,
    ensures
        fast_pending(v, ctx) == any_eligible(v, ctx),
{
    if fast_pending(v, ctx) {
        let s = choose|s: u32| 1 <= s < NUM_SOURCES
            && bit(v.pending & v.enable[ctx], s)
            && v.priority[s as int] > v.threshold[ctx];
        lemma_bit_facts(v.pending, v.enable[ctx], s);
        lemma_bit_facts(0, 0, s);
        assert(eligible(v, s, ctx));
    }
    if any_eligible(v, ctx) {
        lemma_accurate_implies_fast(v, ctx);
    }
}

} // verus!
