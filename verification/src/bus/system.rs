//! The machine's system bus: DRAM on the fast path, and the MMIO devices
//! (CLINT, PLIC, UART, the D1 peripherals and the VirtIO windows) behind it.

use vstd::prelude::*;
use crate::bus::{Bus, low_bytes, TEST_FINISHER_BASE, TEST_FINISHER_SIZE, VIRTIO_BASE, VIRTIO_STRIDE};
use crate::cpu::types::Trap;
use crate::dram::{
    Dram, DramView, MemoryError, fits, le16_at, le32_at, le64_at, with_word, lemma_store_load_8, lemma_store_load_16,
    lemma_store_load_32, lemma_store_load_64,
};
use crate::devices::clint::{Clint, ClintView, CLINT_BASE, CLINT_SIZE, MAX_HARTS, MTIME_INCREMENT};
use crate::devices::plic::{
    Plic, PlicView, PLIC_BASE, PLIC_SIZE, NUM_CONTEXTS, NUM_SOURCES, UART_IRQ, VIRTIO0_IRQ, claim_update, context_of, fast_pending,
    is_claim_reg, is_claim_result, lemma_claim_result_unique, load_plain,
};
use crate::devices::uart::{Uart, UartView, UART_BASE, UART_SIZE};
use crate::devices::d1_mmc::{D1MmcEmulated, MmcView, D1_MMC0_BASE, D1_MMC0_SIZE};
use crate::devices::d1_emac::{D1EmacEmulated, EmacView, D1_EMAC_BASE, D1_EMAC_SIZE};
use crate::devices::d1_touch::{D1TouchEmulated, TouchView, D1_I2C2_BASE, D1_I2C2_SIZE, mmio_value, mmio_write_spec};
use crate::devices::d1_display::{
    D1DisplayEmulated, DisplayView, D1_DE_BASE, D1_DE_SIZE, D1_DPHY_BASE, D1_DPHY_SIZE, D1_MIPI_DSI_BASE,
    D1_MIPI_DSI_SIZE, D1_TCON_LCD0, D1_TCON_SIZE, read32_spec, write32_spec,
};
use crate::devices::virtio::device::VirtioDevice;

verus! {

/// What the bus's accesses read and change: the state of DRAM and of every
/// device on it, with one model per attached VirtIO device.
pub struct BusState<M> {
    pub dram: DramView,
    pub clint: ClintView,
    pub plic: PlicView,
    pub uart: UartView,
    pub virtio: Seq<M>,
    pub mmc: Option<MmcView>,
    pub display: Option<DisplayView>,
    pub emac: Option<EmacView>,
    pub touch: Option<TouchView>,
}

/// `addr` lies in the window of `size` bytes at `base`.
pub open spec fn in_range(addr: u64, base: u64, size: u64) -> bool {
    base <= addr && addr < base + size
}

/// The DRAM offset of `addr`, if it lies in DRAM.
pub open spec fn dram_offset(d: DramView, addr: u64) -> Option<u64> {
    let off = vstd::wrapping::u64_specs::wrapping_sub(addr, d.base);
    if off < d.data.len() { Some(off) } else { None }
}

/// The little-endian value of the `n` bytes of DRAM at `off`.
pub open spec fn dram_value(d: DramView, off: u64, n: nat) -> u64 {
    if n == 1 {
        d.data[off as int] as u64
    } else if n == 2 {
        le16_at(d.data, off as int) as u64
    } else if n == 4 {
        le32_at(d.data, off as int) as u64
    } else {
        le64_at(d.data, off as int)
    }
}

/// The slot and register offset of the VirtIO window that `addr` falls in,
/// if one of the `count` attached devices occupies it.
pub open spec fn virtio_slot(addr: u64, count: nat) -> Option<(nat, u64)> {
    if addr >= VIRTIO_BASE && (addr - VIRTIO_BASE) / (VIRTIO_STRIDE as int) < count {
        Some((((addr - VIRTIO_BASE) / (VIRTIO_STRIDE as int)) as nat, ((addr - VIRTIO_BASE) % (VIRTIO_STRIDE as int)) as u64))
    } else {
        None
    }
}

/// `addr` lies in one of the eight VirtIO windows, occupied or not.
pub open spec fn in_virtio_region(addr: u64) -> bool {
    addr >= VIRTIO_BASE && addr < VIRTIO_BASE + VIRTIO_STRIDE * 8
}

/// `addr` lies in the window of a D1 peripheral (reached by 32-bit accesses).
pub open spec fn in_d1_window(addr: u64) -> bool {
    ||| in_range(addr, D1_MMC0_BASE, D1_MMC0_SIZE)
    ||| in_range(addr, D1_EMAC_BASE, D1_EMAC_SIZE)
    ||| in_range(addr, D1_I2C2_BASE, D1_I2C2_SIZE)
    ||| in_range(addr, D1_DE_BASE, D1_DE_SIZE)
    ||| in_range(addr, D1_TCON_LCD0, D1_TCON_SIZE)
    ||| in_range(addr, D1_MIPI_DSI_BASE, D1_MIPI_DSI_SIZE)
    ||| in_range(addr, D1_DPHY_BASE, D1_DPHY_SIZE)
}

/// The source that a claim on context `ctx` returns (it is unique).
pub open spec fn claim_of(p: PlicView, ctx: int) -> u32 {
    choose|r: u32| is_claim_result(p, ctx, r)
}

/// A PLIC register load of `size` bytes at `offset`: its value and the PLIC after it.
pub open spec fn plic_load(p: PlicView, offset: u64, size: u64) -> (u64, PlicView) {
    if size == 4 && is_claim_reg(offset) {
        let c = claim_of(p, context_of(offset));
        (c as u64, claim_update(p, context_of(offset), c))
    } else {
        (if size == 4 { load_plain(p, offset) } else { 0 }, p)
    }
}

/// A 32-bit read in a D1 window: the register's value (0 while no device is
/// attached) and the bus after it.
pub open spec fn d1_read32<M>(s: BusState<M>, addr: u64) -> (u32, BusState<M>) {
    if in_range(addr, D1_MMC0_BASE, D1_MMC0_SIZE) {
        match s.mmc {
            Some(m) => {
                let (v, m1) = crate::devices::d1_mmc::read_spec(m, addr & 0xFFF);
                (v, BusState { mmc: Some(m1), ..s })
            },
            None => (0, s),
        }
    } else if in_range(addr, D1_EMAC_BASE, D1_EMAC_SIZE) {
        match s.emac {
            Some(e) => (crate::devices::d1_emac::read_spec(e, addr & 0xFFF), s),
            None => (0, s),
        }
    } else if in_range(addr, D1_I2C2_BASE, D1_I2C2_SIZE) {
        match s.touch {
            Some(t) => (mmio_value(t, (addr - D1_I2C2_BASE) as u64), s),
            None => (0, s),
        }
    } else {
        match s.display {
            Some(d) => (read32_spec(d, addr), s),
            None => (0, s),
        }
    }
}

/// A read of `n` bytes in the occupied VirtIO window `idx` at register
/// offset `off`: narrow reads take their bytes from the aligned 32-bit
/// register, a 64-bit read joins two registers; a device error faults.
pub open spec fn virtio_read<V: VirtioDevice>(s: BusState<V::Model>, addr: u64, idx: nat, off: u64, n: nat)
    -> (Result<u64, Trap>, BusState<V::Model>)
{
    let m = s.virtio[idx as int];
    if n == 1 || n == 2 {
        match V::read_result(m, off & !3u64) {
            Ok(w) => (Ok((w >> ((off % 4) * 8) as u64) & (if n == 1 { 0xffu64 } else { 0xffffu64 })), s),
            Err(_) => (Err(Trap::LoadAccessFault(addr)), s),
        }
    } else if n == 4 {
        match V::read_result(m, off) {
            Ok(w) => (Ok(w), s),
            Err(_) => (Err(Trap::LoadAccessFault(addr)), s),
        }
    } else {
        match V::read_result(m, off) {
            Err(_) => (Err(Trap::LoadAccessFault(addr)), s),
            Ok(low) => match V::read_result(m, (off + 4) as u64) {
                Err(_) => (Err(Trap::LoadAccessFault(vstd::wrapping::u64_specs::wrapping_add(addr, 4))), s),
                Ok(high) => (Ok(low | (high << 32u64)), s),
            },
        }
    }
}

/// A read of `n` bytes at `addr` outside DRAM, device by device: the test
/// finisher reads as zero, the D1 peripherals answer 32-bit reads only, an
/// empty VirtIO window reads as zero, and anything else faults.
pub open spec fn io_read<V: VirtioDevice>(s: BusState<V::Model>, addr: u64, n: nat) -> (Result<u64, Trap>, BusState<V::Model>) {
    if in_range(addr, TEST_FINISHER_BASE, TEST_FINISHER_SIZE) {
        (Ok(0), s)
    } else if in_range(addr, CLINT_BASE, CLINT_SIZE) {
        (Ok(crate::devices::clint::load_spec(s.clint, (addr - CLINT_BASE) as u64, n as u64)), s)
    } else if in_range(addr, PLIC_BASE, PLIC_SIZE) {
        let (v, p) = plic_load(s.plic, (addr - PLIC_BASE) as u64, n as u64);
        (Ok(v), BusState { plic: p, ..s })
    } else if in_range(addr, UART_BASE, UART_SIZE) {
        let (v, u) = crate::devices::uart::load_spec(s.uart, (addr - UART_BASE) as u64, n as u64);
        (Ok(v), BusState { uart: u, ..s })
    } else if n == 4 && in_d1_window(addr) {
        let (v, s1) = d1_read32(s, addr);
        (Ok(v as u64), s1)
    } else if virtio_slot(addr, s.virtio.len()) is Some {
        let (idx, off) = virtio_slot(addr, s.virtio.len())->0;
        virtio_read::<V>(s, addr, idx, off, n)
    } else if in_virtio_region(addr) {
        (Ok(0), s)
    } else {
        (Err(Trap::LoadAccessFault(addr)), s)
    }
}

/// A read of `n` bytes at `addr`: misaligned multi-byte reads trap, DRAM
/// answers where it lies (faulting past its end), devices elsewhere.
pub open spec fn bus_read<V: VirtioDevice>(s: BusState<V::Model>, addr: u64, n: nat) -> (Result<u64, Trap>, BusState<V::Model>) {
    if n > 1 && addr % (n as u64) != 0 {
        (Err(Trap::LoadAddressMisaligned(addr)), s)
    } else {
        match dram_offset(s.dram, addr) {
            Some(off) => if fits(off, n, s.dram.data.len()) {
                (Ok(dram_value(s.dram, off, n)), s)
            } else {
                (Err(Trap::LoadAccessFault(addr)), s)
            },
            None => io_read::<V>(s, addr, n),
        }
    }
}

/// A 32-bit write in a D1 window: the attached device takes it; while none
/// is attached nothing changes.
pub open spec fn d1_write32<M>(s: BusState<M>, addr: u64, val: u32) -> BusState<M> {
    if in_range(addr, D1_MMC0_BASE, D1_MMC0_SIZE) {
        match s.mmc {
            Some(m) => BusState { mmc: Some(crate::devices::d1_mmc::write_spec(m, addr & 0xFFF, val)), ..s },
            None => s,
        }
    } else if in_range(addr, D1_EMAC_BASE, D1_EMAC_SIZE) {
        match s.emac {
            Some(e) => BusState { emac: Some(crate::devices::d1_emac::write_spec(e, addr & 0xFFF, val)), ..s },
            None => s,
        }
    } else if in_range(addr, D1_I2C2_BASE, D1_I2C2_SIZE) {
        match s.touch {
            Some(t) => BusState { touch: Some(mmio_write_spec(t, (addr - D1_I2C2_BASE) as u64, val)), ..s },
            None => s,
        }
    } else {
        match s.display {
            Some(d) => BusState { display: Some(write32_spec(d, addr, val)), ..s },
            None => s,
        }
    }
}

/// A write of the `n` bytes of `val` at `addr` outside DRAM, device by
/// device: the test finisher turns it into a requested trap, the D1
/// peripherals take 32-bit writes only, an occupied VirtIO window takes
/// 32-bit writes and ignores narrower and wider ones, an empty window
/// ignores 32- and 64-bit writes, and anything else faults.
pub open spec fn io_write<V: VirtioDevice>(s: BusState<V::Model>, addr: u64, n: nat, val: u64) -> (Result<(), Trap>, BusState<V::Model>) {
    if in_range(addr, TEST_FINISHER_BASE, TEST_FINISHER_SIZE) {
        (Err(Trap::RequestedTrap(val)), s)
    } else if in_range(addr, CLINT_BASE, CLINT_SIZE) {
        (Ok(()), BusState { clint: crate::devices::clint::store_spec(s.clint, (addr - CLINT_BASE) as u64, n as u64, val), ..s })
    } else if in_range(addr, PLIC_BASE, PLIC_SIZE) {
        (Ok(()), BusState { plic: crate::devices::plic::store_spec(s.plic, (addr - PLIC_BASE) as u64, n as u64, val), ..s })
    } else if in_range(addr, UART_BASE, UART_SIZE) {
        (Ok(()), BusState { uart: crate::devices::uart::store_spec(s.uart, (addr - UART_BASE) as u64, n as u64, val), ..s })
    } else if n == 4 && in_d1_window(addr) {
        (Ok(()), d1_write32(s, addr, val as u32))
    } else if virtio_slot(addr, s.virtio.len()) is Some {
        let (idx, off) = virtio_slot(addr, s.virtio.len())->0;
        if n == 4 {
            let (r, m1, d1) = V::write_result(s.virtio[idx as int], off, val, s.dram);
            let s1 = BusState { virtio: s.virtio.update(idx as int, m1), dram: d1, ..s };
            if r is Ok { (Ok(()), s1) } else { (Err(Trap::StoreAccessFault(addr)), s1) }
        } else {
            (Ok(()), s)
        }
    } else if n >= 4 && in_virtio_region(addr) {
        (Ok(()), s)
    } else {
        (Err(Trap::StoreAccessFault(addr)), s)
    }
}

/// A write of the `n` bytes of `val` at `addr`: misaligned multi-byte
/// writes trap, DRAM takes it where it lies (faulting past its end),
/// devices elsewhere.
pub open spec fn bus_write<V: VirtioDevice>(s: BusState<V::Model>, addr: u64, n: nat, val: u64) -> (Result<(), Trap>, BusState<V::Model>) {
    if n > 1 && addr % (n as u64) != 0 {
        (Err(Trap::StoreAddressMisaligned(addr)), s)
    } else {
        match dram_offset(s.dram, addr) {
            Some(off) => if fits(off, n, s.dram.data.len()) {
                (Ok(()), BusState { dram: with_word(s.dram, off, val, n as int), ..s })
            } else {
                (Err(Trap::StoreAccessFault(addr)), s)
            },
            None => io_write::<V>(s, addr, n, val),
        }
    }
}

/// The PLIC after device line `source` is sampled at `level`.
pub open spec fn plic_level(p: PlicView, source: u32, level: bool) -> PlicView {
    if source >= 32 {
        p
    } else if level {
        PlicView { pending: p.pending | (1u32 << source), ..p }
    } else {
        PlicView { pending: p.pending & !(1u32 << source), ..p }
    }
}

/// The PLIC after the interrupt lines of the first `k` VirtIO devices are
/// sampled, device `i` on source `VIRTIO0_IRQ + i` while that is a source.
pub open spec fn sample_virtio_lines<V: VirtioDevice>(p: PlicView, devs: Seq<V::Model>, k: nat) -> PlicView
    decreases k,
{
    if k == 0 {
        p
    } else {
        let prev = sample_virtio_lines::<V>(p, devs, (k - 1) as nat);
        if VIRTIO0_IRQ + (k - 1) < 32 {
            plic_level(prev, (VIRTIO0_IRQ + (k - 1)) as u32, V::interrupt_line(devs[k - 1]))
        } else {
            prev
        }
    }
}

/// The MIP bits for a software (MSIP), timer (MTIP), supervisor external
/// (SEIP) and machine external (MEIP) interrupt.
pub open spec fn mip_bits(msip: bool, mtip: bool, seip: bool, meip: bool) -> u64 {
    let m0: u64 = 0;
    let m1 = if msip { m0 | (1u64 << 3u64) } else { m0 };
    let m2 = if mtip { m1 | (1u64 << 7u64) } else { m1 };
    let m3 = if seip { m2 | (1u64 << 9u64) } else { m2 };
    if meip { m3 | (1u64 << 11u64) } else { m3 }
}

/// An interrupt poll for `hart_id`: hart 0 advances the timer, the UART and
/// VirtIO lines are sampled into the PLIC, and the hart's pending bits are
/// read from the CLINT and from the PLIC's two contexts of the hart.
pub open spec fn interrupt_poll<V: VirtioDevice>(s: BusState<V::Model>, hart_id: usize) -> (u64, BusState<V::Model>) {
    let clint = if hart_id == 0 {
        ClintView { mtime: vstd::wrapping::u64_specs::wrapping_add(s.clint.mtime, MTIME_INCREMENT), ..s.clint }
    } else {
        s.clint
    };
    let plic = sample_virtio_lines::<V>(plic_level(s.plic, UART_IRQ, s.uart.interrupting), s.virtio, s.virtio.len());
    let msip = hart_id < MAX_HARTS && clint.msip[hart_id as int] & 1 != 0;
    let mtip = hart_id < MAX_HARTS && clint.mtime >= clint.mtime_compare[hart_id as int];
    let seip = hart_id < NUM_CONTEXTS / 2 && fast_pending(plic, hart_id * 2 + 1);
    let meip = hart_id < NUM_CONTEXTS / 2 && fast_pending(plic, hart_id * 2);
    (mip_bits(msip, mtip, seip, meip), BusState { clint: clint, plic: plic, ..s })
}

/// The devices and DRAM after the first `k` VirtIO devices have done their
/// background work in turn; a device's error does not stop the others.
pub open spec fn poll_devices<V: VirtioDevice>(devs: Seq<V::Model>, d: DramView, k: nat) -> (Seq<V::Model>, DramView)
    decreases k,
{
    if k == 0 {
        (devs, d)
    } else {
        let (ds, d1) = poll_devices::<V>(devs, d, (k - 1) as nat);
        let (_, m, d2) = V::poll_result(ds[k - 1], d1);
        (ds.update(k - 1, m), d2)
    }
}

/// Polling keeps the number of devices.
proof fn lemma_poll_devices_len<V: VirtioDevice>(devs: Seq<V::Model>, d: DramView, k: nat)
    requires
        k <= devs.len(),
    ensures
        poll_devices::<V>(devs, d, k).0.len() == devs.len(),
    decreases k,
{
    if k > 0 {
        lemma_poll_devices_len::<V>(devs, d, (k - 1) as nat);
    }
}

/// A PLIC load, with the claim it may make stated as a function.
fn plic_load_at(plic: &mut Plic, offset: u64, size: u64) -> (r: u64)
    requires
        old(plic).caches_synced(),
    ensures
        final(plic).caches_synced(),
        (r, final(plic)@) == plic_load(old(plic)@, offset, size),
{
    let ghost p0 = plic@;
    let v = match plic.load(offset, size) {
        Ok(v) => v,
        Err(_) => 0,
    };
    proof {
        if size == 4 && is_claim_reg(offset) {
            let c = claim_of(p0, context_of(offset));
            assert(is_claim_result(p0, context_of(offset), v as u32));
            assert(is_claim_result(p0, context_of(offset), c));
            lemma_claim_result_unique(p0, context_of(offset), v as u32, c);
        }
    }
    v
}

/// The system bus: guest DRAM, the core-local and platform interrupt
/// controllers, the UART, the attached VirtIO devices (one per window from
/// `VIRTIO_BASE`) and, when attached, the D1 peripherals.
pub struct SystemBus<V: VirtioDevice> {
    pub dram: Dram,
    pub clint: Clint,
    pub plic: Plic,
    pub uart: Uart,
    pub virtio_devices: Vec<V>,
    pub d1_mmc: Option<D1MmcEmulated>,
    pub d1_display: Option<D1DisplayEmulated>,
    pub d1_emac: Option<D1EmacEmulated>,
    pub d1_touch: Option<D1TouchEmulated>,
}

impl<V: VirtioDevice> SystemBus<V> {
    /// The devices' own invariants hold.
    pub open spec fn wf(&self) -> bool {
        &&& self.plic.caches_synced()
        &&& (self.d1_mmc matches Some(m) ==> m.wf())
        &&& (self.d1_touch matches Some(t) ==> t.wf())
    }

    /// The models of the attached VirtIO devices, in window order.
    pub open spec fn virtio_models(&self) -> Seq<V::Model> {
        Seq::new(self.virtio_devices@.len(), |i: int| self.virtio_devices@[i].model())
    }

    /// The bus's state.
    pub open spec fn bus_state(&self) -> BusState<V::Model> {
        BusState {
            dram: self.dram@,
            clint: self.clint@,
            plic: self.plic@,
            uart: self.uart@,
            virtio: self.virtio_models(),
            mmc: match self.d1_mmc { Some(m) => Some(m@), None => None },
            display: match self.d1_display { Some(d) => Some(d@), None => None },
            emac: match self.d1_emac { Some(e) => Some(e@), None => None },
            touch: match self.d1_touch { Some(t) => Some(t@), None => None },
        }
    }
}

impl<V: VirtioDevice> SystemBus<V> {
    /// A bus over `dram_size` bytes of zeroed DRAM at `dram_base`, with reset
    /// CLINT, PLIC and UART and no other device attached.
    pub fn new(dram_base: u64, dram_size: usize) -> (r: Self)
        ensures
            r.bus_state().dram == (DramView { base: dram_base, data: Seq::new(dram_size as nat, |i: int| 0u8) }),
            crate::devices::clint::reset_state(r.bus_state().clint, 1),
            crate::devices::plic::view_wf(r.bus_state().plic),
            r.bus_state().plic.pending == 0,
            forall|i: int| 0 <= i < NUM_SOURCES ==> r.bus_state().plic.priority[i] == 0,
            forall|i: int| 0 <= i < NUM_CONTEXTS ==> r.bus_state().plic.enable[i] == 0
                && r.bus_state().plic.threshold[i] == 0 && r.bus_state().plic.active[i] == 0,
            r.bus_state().uart == crate::devices::uart::reset_view(),
            r.bus_state().virtio.len() == 0,
            r.bus_state().mmc is None,
            r.bus_state().display is None,
            r.bus_state().emac is None,
            r.bus_state().touch is None,
            r.wf(),
    {
        let r = SystemBus {
            dram: Dram::new(dram_base, dram_size),
            clint: Clint::new(),
            plic: Plic::new(),
            uart: Uart::new(),
            virtio_devices: Vec::new(),
            d1_mmc: None,
            d1_display: None,
            d1_emac: None,
            d1_touch: None,
        };
        proof {
            assert(r.virtio_models() =~= Seq::<V::Model>::empty());
        }
        r
    }

    /// Base physical address of DRAM.
    pub fn dram_base(&self) -> (r: u64)
        ensures
            r == self.bus_state().dram.base,
    {
        self.dram.base()
    }

    /// Size of DRAM in bytes.
    pub fn dram_size(&self) -> (r: usize)
        ensures
            r == self.bus_state().dram.data.len(),
    {
        self.dram.size()
    }

    /// The window of an attached VirtIO device that `addr` falls in, and
    /// the register offset inside it.
    fn get_virtio_device(&self, addr: u64) -> (r: Option<(usize, u64)>)
        ensures
            match r {
                Some((idx, off)) => virtio_slot(addr, self.virtio_devices@.len()) == Some((idx as nat, off))
                    && idx < self.virtio_devices@.len(),
                None => virtio_slot(addr, self.virtio_devices@.len()) is None,
            },
    {
        if addr >= VIRTIO_BASE {
            let offset = addr - VIRTIO_BASE;
            let idx = offset / VIRTIO_STRIDE;
            if idx < self.virtio_devices.len() as u64 {
                return Some((idx as usize, offset % VIRTIO_STRIDE));
            }
        }
        None
    }

    /// The register offset of `addr` inside a VirtIO window, occupied or not.
    fn is_virtio_region(&self, addr: u64) -> (r: Option<u64>)
        ensures
            r is Some <==> in_virtio_region(addr),
    {
        if addr >= VIRTIO_BASE && addr < VIRTIO_BASE + VIRTIO_STRIDE * 8 {
            Some((addr - VIRTIO_BASE) % VIRTIO_STRIDE)
        } else {
            None
        }
    }
}

impl<V: VirtioDevice> SystemBus<V> {
    /// Byte read outside DRAM.
    fn read8_slow(&mut self, addr: u64) -> (r: Result<u8, Trap>)
        requires
            old(self).wf(),
        ensures
            final(self).wf(),
            match io_read::<V>(old(self).bus_state(), addr, 1) {
                (Ok(v), st) => r == Ok::<u8, Trap>(v as u8) && final(self).bus_state() == st,
                (Err(e), st) => r == Err::<u8, Trap>(e) && final(self).bus_state() == st,
            },
    {
        if addr >= TEST_FINISHER_BASE && addr < TEST_FINISHER_BASE + TEST_FINISHER_SIZE {
            return Ok(0);
        }
        if addr >= CLINT_BASE && addr < CLINT_BASE + CLINT_SIZE {
            let val = self.clint.load(addr - CLINT_BASE, 1);
            return Ok(val as u8);
        }
        if addr >= PLIC_BASE && addr < PLIC_BASE + PLIC_SIZE {
            let val = plic_load_at(&mut self.plic, addr - PLIC_BASE, 1);
            return Ok(val as u8);
        }
        if addr >= UART_BASE && addr < UART_BASE + UART_SIZE {
            let val = match self.uart.load(addr - UART_BASE, 1) {
                Ok(v) => v,
                Err(_) => return Err(Trap::LoadAccessFault(addr)),
            };
            return Ok(val as u8);
        }
        if let Some((idx, offset)) = self.get_virtio_device(addr) {
            proof {
                assert(self.virtio_models()[idx as int] == self.virtio_devices@[idx as int].model());
            }
            // Narrow reads take their bytes from the aligned 32-bit register.
            let word = match self.virtio_devices[idx].read(offset & !3u64) {
                Ok(w) => w,
                Err(_) => return Err(Trap::LoadAccessFault(addr)),
            };
            let shift = (offset % 4) * 8;
            return Ok(((word >> shift) & 0xffu64) as u8);
        }
        if self.is_virtio_region(addr).is_some() {
            return Ok(0);
        }
        Err(Trap::LoadAccessFault(addr))
    }

    /// Halfword read outside DRAM.
    fn read16_slow(&mut self, addr: u64) -> (r: Result<u16, Trap>)
        requires
            old(self).wf(),
        ensures
            final(self).wf(),
            match io_read::<V>(old(self).bus_state(), addr, 2) {
                (Ok(v), st) => r == Ok::<u16, Trap>(v as u16) && final(self).bus_state() == st,
                (Err(e), st) => r == Err::<u16, Trap>(e) && final(self).bus_state() == st,
            },
    {
        if addr >= TEST_FINISHER_BASE && addr < TEST_FINISHER_BASE + TEST_FINISHER_SIZE {
            return Ok(0);
        }
        if addr >= CLINT_BASE && addr < CLINT_BASE + CLINT_SIZE {
            let val = self.clint.load(addr - CLINT_BASE, 2);
            return Ok(val as u16);
        }
        if addr >= PLIC_BASE && addr < PLIC_BASE + PLIC_SIZE {
            let val = plic_load_at(&mut self.plic, addr - PLIC_BASE, 2);
            return Ok(val as u16);
        }
        if addr >= UART_BASE && addr < UART_BASE + UART_SIZE {
            let val = match self.uart.load(addr - UART_BASE, 2) {
                Ok(v) => v,
                Err(_) => return Err(Trap::LoadAccessFault(addr)),
            };
            return Ok(val as u16);
        }
        if let Some((idx, offset)) = self.get_virtio_device(addr) {
            proof {
                assert(self.virtio_models()[idx as int] == self.virtio_devices@[idx as int].model());
            }
            // Narrow reads take their bytes from the aligned 32-bit register.
            let word = match self.virtio_devices[idx].read(offset & !3u64) {
                Ok(w) => w,
                Err(_) => return Err(Trap::LoadAccessFault(addr)),
            };
            let shift = (offset % 4) * 8;
            return Ok(((word >> shift) & 0xffffu64) as u16);
        }
        if self.is_virtio_region(addr).is_some() {
            return Ok(0);
        }
        Err(Trap::LoadAccessFault(addr))
    }

    /// Word read outside DRAM; the D1 peripherals answer here only.
    fn read32_slow(&mut self, addr: u64) -> (r: Result<u32, Trap>)
        requires
            old(self).wf(),
        ensures
            final(self).wf(),
            match io_read::<V>(old(self).bus_state(), addr, 4) {
                (Ok(v), st) => r == Ok::<u32, Trap>(v as u32) && final(self).bus_state() == st,
                (Err(e), st) => r == Err::<u32, Trap>(e) && final(self).bus_state() == st,
            },
    {
        if addr >= TEST_FINISHER_BASE && addr < TEST_FINISHER_BASE + TEST_FINISHER_SIZE {
            return Ok(0);
        }
        if addr >= CLINT_BASE && addr < CLINT_BASE + CLINT_SIZE {
            let val = self.clint.load(addr - CLINT_BASE, 4);
            return Ok(val as u32);
        }
        if addr >= PLIC_BASE && addr < PLIC_BASE + PLIC_SIZE {
            let val = plic_load_at(&mut self.plic, addr - PLIC_BASE, 4);
            return Ok(val as u32);
        }
        if addr >= UART_BASE && addr < UART_BASE + UART_SIZE {
            let val = match self.uart.load(addr - UART_BASE, 4) {
                Ok(v) => v,
                Err(_) => return Err(Trap::LoadAccessFault(addr)),
            };
            return Ok(val as u32);
        }
        if addr >= D1_MMC0_BASE && addr < D1_MMC0_BASE + D1_MMC0_SIZE {
            return match &mut self.d1_mmc {
                Some(dev) => Ok(dev.mmio_read32(addr)),
                None => Ok(0),
            };
        }
        if addr >= D1_EMAC_BASE && addr < D1_EMAC_BASE + D1_EMAC_SIZE {
            return match &self.d1_emac {
                Some(dev) => Ok(dev.mmio_read32(addr)),
                None => Ok(0),
            };
        }
        if addr >= D1_I2C2_BASE && addr < D1_I2C2_BASE + D1_I2C2_SIZE {
            return match &mut self.d1_touch {
                Some(dev) => Ok(dev.mmio_read32(addr)),
                None => Ok(0),
            };
        }
        if (addr >= D1_DE_BASE && addr < D1_DE_BASE + D1_DE_SIZE)
            || (addr >= D1_TCON_LCD0 && addr < D1_TCON_LCD0 + D1_TCON_SIZE)
            || (addr >= D1_MIPI_DSI_BASE && addr < D1_MIPI_DSI_BASE + D1_MIPI_DSI_SIZE)
            || (addr >= D1_DPHY_BASE && addr < D1_DPHY_BASE + D1_DPHY_SIZE) {
            return match &self.d1_display {
                Some(dev) => Ok(dev.mmio_read32(addr)),
                None => Ok(0),
            };
        }
        if let Some((idx, offset)) = self.get_virtio_device(addr) {
            proof {
                assert(self.virtio_models()[idx as int] == self.virtio_devices@[idx as int].model());
            }
            return match self.virtio_devices[idx].read(offset) {
                Ok(v) => Ok(v as u32),
                Err(_) => Err(Trap::LoadAccessFault(addr)),
            };
        }
        if self.is_virtio_region(addr).is_some() {
            return Ok(0);
        }
        Err(Trap::LoadAccessFault(addr))
    }

    /// Doubleword read outside DRAM; a VirtIO window joins two registers.
    fn read64_slow(&mut self, addr: u64) -> (r: Result<u64, Trap>)
        requires
            old(self).wf(),
        ensures
            final(self).wf(),
            (r, final(self).bus_state()) == io_read::<V>(old(self).bus_state(), addr, 8),
    {
        if addr >= TEST_FINISHER_BASE && addr < TEST_FINISHER_BASE + TEST_FINISHER_SIZE {
            return Ok(0);
        }
        if addr >= CLINT_BASE && addr < CLINT_BASE + CLINT_SIZE {
            let val = self.clint.load(addr - CLINT_BASE, 8);
            return Ok(val as u64);
        }
        if addr >= PLIC_BASE && addr < PLIC_BASE + PLIC_SIZE {
            let val = plic_load_at(&mut self.plic, addr - PLIC_BASE, 8);
            return Ok(val as u64);
        }
        if addr >= UART_BASE && addr < UART_BASE + UART_SIZE {
            let val = match self.uart.load(addr - UART_BASE, 8) {
                Ok(v) => v,
                Err(_) => return Err(Trap::LoadAccessFault(addr)),
            };
            return Ok(val as u64);
        }
        if let Some((idx, offset)) = self.get_virtio_device(addr) {
            proof {
                assert(self.virtio_models()[idx as int] == self.virtio_devices@[idx as int].model());
            }
            let low = match self.virtio_devices[idx].read(offset) {
                Ok(v) => v,
                Err(_) => return Err(Trap::LoadAccessFault(addr)),
            };
            let high = match self.virtio_devices[idx].read(offset + 4) {
                Ok(v) => v,
                Err(_) => return Err(Trap::LoadAccessFault(addr.wrapping_add(4))),
            };
            return Ok(low | (high << 32u64));
        }
        if self.is_virtio_region(addr).is_some() {
            return Ok(0);
        }
        Err(Trap::LoadAccessFault(addr))
    }
}

impl<V: VirtioDevice> SystemBus<V> {
    /// Byte write outside DRAM; VirtIO registers ignore it.
    fn write8_slow(&mut self, addr: u64, val: u8) -> (r: Result<(), Trap>)
        requires
            old(self).wf(),
        ensures
            final(self).wf(),
            (r, final(self).bus_state()) == io_write::<V>(old(self).bus_state(), addr, 1, val as u64),
    {
        if addr >= TEST_FINISHER_BASE && addr < TEST_FINISHER_BASE + TEST_FINISHER_SIZE {
            return Err(Trap::RequestedTrap(val as u64));
        }
        if addr >= CLINT_BASE && addr < CLINT_BASE + CLINT_SIZE {
            self.clint.store(addr - CLINT_BASE, 1, val as u64);
            return Ok(());
        }
        if addr >= PLIC_BASE && addr < PLIC_BASE + PLIC_SIZE {
            return match self.plic.store(addr - PLIC_BASE, 1, val as u64) {
                Ok(_) => Ok(()),
                Err(_) => Err(Trap::StoreAccessFault(addr)),
            };
        }
        if addr >= UART_BASE && addr < UART_BASE + UART_SIZE {
            return match self.uart.store(addr - UART_BASE, 1, val as u64) {
                Ok(_) => Ok(()),
                Err(_) => Err(Trap::StoreAccessFault(addr)),
            };
        }
        if let Some((_idx, _offset)) = self.get_virtio_device(addr) {
            return Ok(());
        }
        Err(Trap::StoreAccessFault(addr))
    }

    /// Halfword write outside DRAM; VirtIO registers ignore it.
    fn write16_slow(&mut self, addr: u64, val: u16) -> (r: Result<(), Trap>)
        requires
            old(self).wf(),
        ensures
            final(self).wf(),
            (r, final(self).bus_state()) == io_write::<V>(old(self).bus_state(), addr, 2, val as u64),
    {
        if addr >= TEST_FINISHER_BASE && addr < TEST_FINISHER_BASE + TEST_FINISHER_SIZE {
            return Err(Trap::RequestedTrap(val as u64));
        }
        if addr >= CLINT_BASE && addr < CLINT_BASE + CLINT_SIZE {
            self.clint.store(addr - CLINT_BASE, 2, val as u64);
            return Ok(());
        }
        if addr >= PLIC_BASE && addr < PLIC_BASE + PLIC_SIZE {
            return match self.plic.store(addr - PLIC_BASE, 2, val as u64) {
                Ok(_) => Ok(()),
                Err(_) => Err(Trap::StoreAccessFault(addr)),
            };
        }
        if addr >= UART_BASE && addr < UART_BASE + UART_SIZE {
            return match self.uart.store(addr - UART_BASE, 2, val as u64) {
                Ok(_) => Ok(()),
                Err(_) => Err(Trap::StoreAccessFault(addr)),
            };
        }
        if let Some((_idx, _offset)) = self.get_virtio_device(addr) {
            return Ok(());
        }
        Err(Trap::StoreAccessFault(addr))
    }

    /// Word write outside DRAM: the D1 peripherals and the VirtIO registers
    /// take it here.
    fn write32_slow(&mut self, addr: u64, val: u32) -> (r: Result<(), Trap>)
        requires
            old(self).wf(),
        ensures
            final(self).wf(),
            (r, final(self).bus_state()) == io_write::<V>(old(self).bus_state(), addr, 4, val as u64),
    {
        if addr >= TEST_FINISHER_BASE && addr < TEST_FINISHER_BASE + TEST_FINISHER_SIZE {
            return Err(Trap::RequestedTrap(val as u64));
        }
        if addr >= CLINT_BASE && addr < CLINT_BASE + CLINT_SIZE {
            self.clint.store(addr - CLINT_BASE, 4, val as u64);
            return Ok(());
        }
        if addr >= PLIC_BASE && addr < PLIC_BASE + PLIC_SIZE {
            return match self.plic.store(addr - PLIC_BASE, 4, val as u64) {
                Ok(_) => Ok(()),
                Err(_) => Err(Trap::StoreAccessFault(addr)),
            };
        }
        if addr >= UART_BASE && addr < UART_BASE + UART_SIZE {
            return match self.uart.store(addr - UART_BASE, 4, val as u64) {
                Ok(_) => Ok(()),
                Err(_) => Err(Trap::StoreAccessFault(addr)),
            };
        }
        if addr >= D1_MMC0_BASE && addr < D1_MMC0_BASE + D1_MMC0_SIZE {
            match &mut self.d1_mmc {
                Some(dev) => dev.mmio_write32(addr, val),
                None => {},
            }
            return Ok(());
        }
        if addr >= D1_EMAC_BASE && addr < D1_EMAC_BASE + D1_EMAC_SIZE {
            match &mut self.d1_emac {
                Some(dev) => dev.mmio_write32(addr, val),
                None => {},
            }
            return Ok(());
        }
        if addr >= D1_I2C2_BASE && addr < D1_I2C2_BASE + D1_I2C2_SIZE {
            match &mut self.d1_touch {
                Some(dev) => dev.mmio_write32(addr, val),
                None => {},
            }
            return Ok(());
        }
        if (addr >= D1_DE_BASE && addr < D1_DE_BASE + D1_DE_SIZE)
            || (addr >= D1_TCON_LCD0 && addr < D1_TCON_LCD0 + D1_TCON_SIZE)
            || (addr >= D1_MIPI_DSI_BASE && addr < D1_MIPI_DSI_BASE + D1_MIPI_DSI_SIZE)
            || (addr >= D1_DPHY_BASE && addr < D1_DPHY_BASE + D1_DPHY_SIZE) {
            match &mut self.d1_display {
                Some(dev) => dev.mmio_write32(addr, val),
                None => {},
            }
            return Ok(());
        }
        if let Some((idx, offset)) = self.get_virtio_device(addr) {
            let ghost models = self.virtio_models();
            let result = self.virtio_devices[idx].write(offset, val as u64, &mut self.dram);
            proof {
                assert(self.virtio_models() =~= models.update(idx as int, self.virtio_devices@[idx as int].model()));
            }
            return match result {
                Ok(_) => Ok(()),
                Err(_) => Err(Trap::StoreAccessFault(addr)),
            };
        }
        if self.is_virtio_region(addr).is_some() {
            return Ok(());
        }
        Err(Trap::StoreAccessFault(addr))
    }

    /// Doubleword write outside DRAM; VirtIO windows ignore it.
    fn write64_slow(&mut self, addr: u64, val: u64) -> (r: Result<(), Trap>)
        requires
            old(self).wf(),
        ensures
            final(self).wf(),
            (r, final(self).bus_state()) == io_write::<V>(old(self).bus_state(), addr, 8, val as u64),
    {
        if addr >= TEST_FINISHER_BASE && addr < TEST_FINISHER_BASE + TEST_FINISHER_SIZE {
            return Err(Trap::RequestedTrap(val as u64));
        }
        if addr >= CLINT_BASE && addr < CLINT_BASE + CLINT_SIZE {
            self.clint.store(addr - CLINT_BASE, 8, val as u64);
            return Ok(());
        }
        if addr >= PLIC_BASE && addr < PLIC_BASE + PLIC_SIZE {
            return match self.plic.store(addr - PLIC_BASE, 8, val as u64) {
                Ok(_) => Ok(()),
                Err(_) => Err(Trap::StoreAccessFault(addr)),
            };
        }
        if addr >= UART_BASE && addr < UART_BASE + UART_SIZE {
            return match self.uart.store(addr - UART_BASE, 8, val as u64) {
                Ok(_) => Ok(()),
                Err(_) => Err(Trap::StoreAccessFault(addr)),
            };
        }
        if let Some((_idx, _offset)) = self.get_virtio_device(addr) {
            return Ok(());
        }
        if self.is_virtio_region(addr).is_some() {
            return Ok(());
        }
        Err(Trap::StoreAccessFault(addr))
    }
}

impl<V: VirtioDevice> SystemBus<V> {
    /// Set the number of harts that the CLINT reports.
    pub fn set_num_harts(&mut self, num_harts: usize)
        requires
            old(self).wf(),
        ensures
            final(self).wf(),
            final(self).bus_state() == (BusState {
                clint: ClintView { num_harts: crate::devices::clint::clamp_harts(num_harts), ..old(self).bus_state().clint },
                ..old(self).bus_state()
            }),
    {
        self.clint.set_num_harts(num_harts);
    }

    /// Interrupt poll for hart 0.
    pub fn check_interrupts(&mut self) -> (r: u64)
        requires
            old(self).wf(),
        ensures
            final(self).wf(),
            (r, final(self).bus_state()) == interrupt_poll::<V>(old(self).bus_state(), 0),
    {
        self.check_interrupts_for_hart(0)
    }

    /// Interrupt poll for `hart_id`: the MIP bits (MSIP, MTIP, SEIP, MEIP)
    /// that its interrupt sources raise.
    pub fn check_interrupts_for_hart(&mut self, hart_id: usize) -> (r: u64)
        requires
            old(self).wf(),
        ensures
            final(self).wf(),
            (r, final(self).bus_state()) == interrupt_poll::<V>(old(self).bus_state(), hart_id),
    {
        let ghost s0 = self.bus_state();
        // The timer advances from hart 0 only, so that it runs at one rate
        // whatever the number of harts.
        if hart_id == 0 {
            self.clint.tick();
        }
        let uart_irq = self.uart.is_interrupting();
        self.plic.set_source_level(UART_IRQ, uart_irq);
        let ghost p1 = self.plic@;
        let ghost s1 = self.bus_state();
        let n = self.virtio_devices.len();
        let mut i: usize = 0;
        while i < n
            invariant
                n == self.virtio_devices@.len(),
                0 <= i <= n,
                self.wf(),
                self.virtio_models() == s0.virtio,
                self.bus_state() == (BusState { plic: sample_virtio_lines::<V>(p1, s0.virtio, i as nat), ..s1 }),
            decreases n - i,
        {
            if i < 31 {
                let line = self.virtio_devices[i].is_interrupting();
                proof {
                    assert(self.virtio_models()[i as int] == self.virtio_devices@[i as int].model());
                }
                self.plic.set_source_level(VIRTIO0_IRQ + i as u32, line);
            }
            i += 1;
        }
        let (msip, timer) = self.clint.check_interrupts_for_hart(hart_id);
        let mut mip: u64 = 0;
        if msip {
            mip = mip | (1u64 << 3u64);
        }
        if timer {
            mip = mip | (1u64 << 7u64);
        }
        if hart_id < NUM_CONTEXTS / 2 && self.plic.is_interrupt_pending_for_fast(Plic::s_context(hart_id)) {
            mip = mip | (1u64 << 9u64);
        }
        if hart_id < NUM_CONTEXTS / 2 && self.plic.is_interrupt_pending_for_fast(Plic::m_context(hart_id)) {
            mip = mip | (1u64 << 11u64);
        }
        mip
    }

    /// Let every VirtIO device do its background work (e.g. deliver queued
    /// input); a device's error is dropped and the next device polled.
    pub fn poll_virtio(&mut self)
        requires
            old(self).wf(),
        ensures
            final(self).wf(),
            ({
                let s = old(self).bus_state();
                let (devs, d) = poll_devices::<V>(s.virtio, s.dram, s.virtio.len());
                final(self).bus_state() == (BusState { virtio: devs, dram: d, ..s })
            }),
    {
        let ghost s0 = self.bus_state();
        let n = self.virtio_devices.len();
        let mut i: usize = 0;
        while i < n
            invariant
                n == self.virtio_devices@.len(),
                0 <= i <= n,
                self.wf(),
                n == s0.virtio.len(),
                ({
                    let (devs, d) = poll_devices::<V>(s0.virtio, s0.dram, i as nat);
                    self.bus_state() == (BusState { virtio: devs, dram: d, ..s0 })
                }),
            decreases n - i,
        {
            proof {
                lemma_poll_devices_len::<V>(s0.virtio, s0.dram, i as nat);
                assert(self.virtio_models()[i as int] == self.virtio_devices@[i as int].model());
            }
            let ghost models = self.virtio_models();
            let _ = self.virtio_devices[i].poll(&mut self.dram);
            proof {
                assert(self.virtio_models() =~= models.update(i as int, self.virtio_devices@[i as int].model()));
            }
            i += 1;
        }
    }
}

impl<V: VirtioDevice> Bus for SystemBus<V> {
    type State = BusState<V::Model>;

    open spec fn inv(&self) -> bool {
        self.wf()
    }

    open spec fn state(&self) -> BusState<V::Model> {
        self.bus_state()
    }

    open spec fn read_outcome(s: BusState<V::Model>, addr: u64, n: nat) -> (Result<u64, Trap>, BusState<V::Model>) {
        bus_read::<V>(s, addr, n)
    }

    open spec fn write_outcome(s: BusState<V::Model>, addr: u64, n: nat, val: u64) -> (Result<(), Trap>, BusState<V::Model>) {
        bus_write::<V>(s, addr, n, val)
    }

    fn read8(&mut self, addr: u64) -> (r: Result<u8, Trap>) {
        if let Some(off) = self.dram.offset(addr) {
            return match self.dram.load_8(off as u64) {
                Ok(v) => Ok(v),
                Err(_) => Err(Trap::LoadAccessFault(addr)),
            };
        }
        self.read8_slow(addr)
    }

    fn read16(&mut self, addr: u64) -> (r: Result<u16, Trap>) {
        if addr % 2 != 0 {
            return Err(Trap::LoadAddressMisaligned(addr));
        }
        if let Some(off) = self.dram.offset(addr) {
            return match self.dram.load_16(off as u64) {
                Ok(v) => Ok(v),
                Err(_) => Err(Trap::LoadAccessFault(addr)),
            };
        }
        self.read16_slow(addr)
    }

    fn read32(&mut self, addr: u64) -> (r: Result<u32, Trap>) {
        if addr % 4 != 0 {
            return Err(Trap::LoadAddressMisaligned(addr));
        }
        if let Some(off) = self.dram.offset(addr) {
            return match self.dram.load_32(off as u64) {
                Ok(v) => Ok(v),
                Err(_) => Err(Trap::LoadAccessFault(addr)),
            };
        }
        self.read32_slow(addr)
    }

    fn read64(&mut self, addr: u64) -> (r: Result<u64, Trap>) {
        if addr % 8 != 0 {
            return Err(Trap::LoadAddressMisaligned(addr));
        }
        if let Some(off) = self.dram.offset(addr) {
            return match self.dram.load_64(off as u64) {
                Ok(v) => Ok(v),
                Err(_) => Err(Trap::LoadAccessFault(addr)),
            };
        }
        self.read64_slow(addr)
    }

    fn write8(&mut self, addr: u64, val: u8) -> (r: Result<(), Trap>) {
        if let Some(off) = self.dram.offset(addr) {
            return match self.dram.store_8(off as u64, val as u64) {
                Ok(_) => Ok(()),
                Err(_) => Err(Trap::StoreAccessFault(addr)),
            };
        }
        self.write8_slow(addr, val)
    }

    fn write16(&mut self, addr: u64, val: u16) -> (r: Result<(), Trap>) {
        if addr % 2 != 0 {
            return Err(Trap::StoreAddressMisaligned(addr));
        }
        if let Some(off) = self.dram.offset(addr) {
            return match self.dram.store_16(off as u64, val as u64) {
                Ok(_) => Ok(()),
                Err(_) => Err(Trap::StoreAccessFault(addr)),
            };
        }
        self.write16_slow(addr, val)
    }

    fn write32(&mut self, addr: u64, val: u32) -> (r: Result<(), Trap>) {
        if addr % 4 != 0 {
            return Err(Trap::StoreAddressMisaligned(addr));
        }
        if let Some(off) = self.dram.offset(addr) {
            return match self.dram.store_32(off as u64, val as u64) {
                Ok(_) => Ok(()),
                Err(_) => Err(Trap::StoreAccessFault(addr)),
            };
        }
        self.write32_slow(addr, val)
    }

    fn write64(&mut self, addr: u64, val: u64) -> (r: Result<(), Trap>) {
        if addr % 8 != 0 {
            return Err(Trap::StoreAddressMisaligned(addr));
        }
        if let Some(off) = self.dram.offset(addr) {
            return match self.dram.store_64(off as u64, val) {
                Ok(_) => Ok(()),
                Err(_) => Err(Trap::StoreAccessFault(addr)),
            };
        }
        self.write64_slow(addr, val)
    }

    fn poll_interrupts(&mut self) -> (r: u64)
        ensures
            (r, final(self).bus_state()) == interrupt_poll::<V>(old(self).bus_state(), 0),
    {
        self.check_interrupts()
    }

    fn poll_interrupts_for_hart(&mut self, hart_id: usize) -> (r: u64)
        ensures
            (r, final(self).bus_state()) == interrupt_poll::<V>(old(self).bus_state(), hart_id),
    {
        self.check_interrupts_for_hart(hart_id)
    }
}

/// Through the bus, a DRAM read of the width just written, at the same
/// address, returns the low bytes of the value written, and changes nothing.
pub proof fn lemma_dram_write_read<V: VirtioDevice>(s: BusState<V::Model>, addr: u64, n: nat, val: u64)
    requires
        n == 1 || n == 2 || n == 4 || n == 8,
        dram_offset(s.dram, addr) is Some,
        bus_write::<V>(s, addr, n, val).0 is Ok,
    ensures
        ({
            let s1 = bus_write::<V>(s, addr, n, val).1;
            bus_read::<V>(s1, addr, n) == (Ok::<u64, Trap>(low_bytes(val, n)), s1)
        }),
{
    let off = dram_offset(s.dram, addr)->0;
    let d1 = with_word(s.dram, off, val, n as int);
    assert(d1.base == s.dram.base && d1.data.len() == s.dram.data.len());
    assert(dram_offset(d1, addr) == Some(off));
    if n == 1 {
        lemma_store_load_8(s.dram.data, off, val);
        assert((val & 0xff) as u8 == val as u8) by (bit_vector);
    } else if n == 2 {
        lemma_store_load_16(s.dram.data, off, val);
    } else if n == 4 {
        lemma_store_load_32(s.dram.data, off, val);
    } else {
        lemma_store_load_64(s.dram.data, off, val);
    }
}

/// A read that faults or traps leaves the bus as it was.
pub proof fn lemma_failed_read_changes_nothing<V: VirtioDevice>(s: BusState<V::Model>, addr: u64, n: nat)
    requires
        bus_read::<V>(s, addr, n).0 is Err,
    ensures
        bus_read::<V>(s, addr, n).1 == s,
{
}

/// Each MIP bit of a poll stands for its own source.
proof fn lemma_mip_bits(msip: bool, mtip: bool, seip: bool, meip: bool)
    ensures
        (mip_bits(msip, mtip, seip, meip) & 0x8 != 0) == msip,
        (mip_bits(msip, mtip, seip, meip) & 0x80 != 0) == mtip,
        (mip_bits(msip, mtip, seip, meip) & 0x200 != 0) == seip,
        (mip_bits(msip, mtip, seip, meip) & 0x800 != 0) == meip,
        mip_bits(msip, mtip, seip, meip) & !0xA88u64 == 0,
{
    assert({
        let m0: u64 = 0;
        let m1 = if msip { m0 | (1u64 << 3u64) } else { m0 };
        let m2 = if mtip { m1 | (1u64 << 7u64) } else { m1 };
        let m3 = if seip { m2 | (1u64 << 9u64) } else { m2 };
        let m = if meip { m3 | (1u64 << 11u64) } else { m3 };
        &&& (m & 0x8 != 0) == msip
        &&& (m & 0x80 != 0) == mtip
        &&& (m & 0x200 != 0) == seip
        &&& (m & 0x800 != 0) == meip
        &&& m & !0xA88u64 == 0
    }) by (bit_vector);
}

/// An interrupt poll of a hart raises MTIP exactly when the timer has
/// reached the hart's compare value, MSIP exactly when its software
/// interrupt is set, SEIP and MEIP exactly when the PLIC's fast check
/// finds an interrupt for its supervisor and machine contexts, and no other
/// bit; only a poll of hart 0 advances the timer.
pub proof fn lemma_poll_reports_sources<V: VirtioDevice>(s: BusState<V::Model>, hart_id: usize)
    requires
        hart_id < MAX_HARTS,
    ensures
        ({
            let (mip, s1) = interrupt_poll::<V>(s, hart_id);
            &&& (mip & 0x8 != 0) == (s1.clint.msip[hart_id as int] & 1 != 0)
            &&& (mip & 0x80 != 0) == (s1.clint.mtime >= s1.clint.mtime_compare[hart_id as int])
            &&& (mip & 0x200 != 0) == fast_pending(s1.plic, hart_id * 2 + 1)
            &&& (mip & 0x800 != 0) == fast_pending(s1.plic, hart_id * 2)
            &&& mip & !0xA88u64 == 0
            &&& (hart_id != 0 ==> s1.clint == s.clint)
        }),
{
    let (mip, s1) = interrupt_poll::<V>(s, hart_id);
    let msip = s1.clint.msip[hart_id as int] & 1 != 0;
    let mtip = s1.clint.mtime >= s1.clint.mtime_compare[hart_id as int];
    let seip = fast_pending(s1.plic, hart_id * 2 + 1);
    let meip = fast_pending(s1.plic, hart_id * 2);
    lemma_mip_bits(msip, mtip, seip, meip);
}

} // verus!
