//! VirtIO MMIO register layout shared by the VirtIO devices, and the device
//! interface the system bus drives.

use vstd::prelude::*;
use crate::dram::{Dram, DramView, MemoryError, DRAM_BASE, checked, fits, le16_at, word32, word64, with_word};

verus! {

/// Magic value ("virt").
pub const MAGIC_VALUE: u64 = 0x7472_6976;
/// Device version.
pub const VERSION: u64 = 2;
/// Vendor ID ("QEMU").
pub const VENDOR_ID: u64 = 0x554d_4551;

pub const MAGIC_VALUE_OFFSET: u64 = 0x000;
pub const VERSION_OFFSET: u64 = 0x004;
pub const DEVICE_ID_OFFSET: u64 = 0x008;
pub const VENDOR_ID_OFFSET: u64 = 0x00c;
pub const DEVICE_FEATURES_OFFSET: u64 = 0x010;
pub const DEVICE_FEATURES_SEL_OFFSET: u64 = 0x014;
pub const DRIVER_FEATURES_OFFSET: u64 = 0x020;
pub const DRIVER_FEATURES_SEL_OFFSET: u64 = 0x024;
pub const GUEST_PAGE_SIZE_OFFSET: u64 = 0x028;
pub const QUEUE_SEL_OFFSET: u64 = 0x030;
pub const QUEUE_NUM_MAX_OFFSET: u64 = 0x034;
pub const QUEUE_NUM_OFFSET: u64 = 0x038;
pub const QUEUE_PFN_OFFSET: u64 = 0x040;
pub const QUEUE_READY_OFFSET: u64 = 0x044;
pub const QUEUE_NOTIFY_OFFSET: u64 = 0x050;
pub const INTERRUPT_STATUS_OFFSET: u64 = 0x060;
pub const INTERRUPT_ACK_OFFSET: u64 = 0x064;
pub const STATUS_OFFSET: u64 = 0x070;
pub const QUEUE_DESC_LOW_OFFSET: u64 = 0x080;
pub const QUEUE_DESC_HIGH_OFFSET: u64 = 0x084;
pub const QUEUE_DRIVER_LOW_OFFSET: u64 = 0x090;
pub const QUEUE_DRIVER_HIGH_OFFSET: u64 = 0x094;
pub const QUEUE_DEVICE_LOW_OFFSET: u64 = 0x0a0;
pub const QUEUE_DEVICE_HIGH_OFFSET: u64 = 0x0a4;
pub const CONFIG_GENERATION_OFFSET: u64 = 0x0fc;
pub const CONFIG_SPACE_OFFSET: u64 = 0x100;

pub const VIRTIO_NET_DEVICE_ID: u32 = 1;
pub const VIRTIO_BLK_DEVICE_ID: u32 = 2;
pub const VIRTIO_CONSOLE_DEVICE_ID: u32 = 3;
pub const VIRTIO_RNG_DEVICE_ID: u32 = 4;
pub const VIRTIO_GPU_DEVICE_ID: u32 = 16;
pub const VIRTIO_INPUT_DEVICE_ID: u32 = 18;

pub const VIRTIO_BLK_F_SIZE_MAX: u64 = 1;
pub const VIRTIO_BLK_F_SEG_MAX: u64 = 2;
pub const VIRTIO_BLK_F_GEOMETRY: u64 = 4;
pub const VIRTIO_BLK_F_RO: u64 = 5;
pub const VIRTIO_BLK_F_BLK_SIZE: u64 = 6;
pub const VIRTIO_BLK_F_FLUSH: u64 = 9;

pub const VIRTIO_NET_F_MAC: u64 = 5;
pub const VIRTIO_NET_F_STATUS: u64 = 16;
pub const VIRTIO_NET_F_MRG_RXBUF: u64 = 15;
pub const VIRTIO_NET_F_CSUM: u64 = 0;
pub const VIRTIO_NET_F_GUEST_CSUM: u64 = 1;

pub const VIRTIO_NET_S_LINK_UP: u16 = 1;

/// Ring size used when the driver leaves QueueNum at 0.
pub const QUEUE_SIZE: u32 = 16;

/// Descriptor flag: the chain continues at `next`.
pub const VRING_DESC_F_NEXT: u64 = 1;
/// Descriptor flag: the device writes the buffer.
pub const VRING_DESC_F_WRITE: u64 = 2;

/// Wrapping 64-bit addition.
pub open spec fn wadd(a: u64, b: u64) -> u64 {
    vstd::wrapping::u64_specs::wrapping_add(a, b)
}

/// Wrapping 16-bit addition.
pub open spec fn wadd16(a: u16, b: u16) -> u16 {
    vstd::wrapping::u16_specs::wrapping_add(a, b)
}

/// Offset into DRAM of a guest physical address.
pub open spec fn phys(addr: u64) -> Result<u64, MemoryError> {
    if addr < DRAM_BASE { Err(MemoryError::OutOfBounds(addr)) } else { Ok((addr - DRAM_BASE) as u64) }
}

pub open spec fn load8(d: DramView, o: u64) -> Result<u8, MemoryError> {
    checked(o, 1, d.data.len(), if fits(o, 1, d.data.len()) { d.data[o as int] } else { 0 })
}

pub open spec fn load16(d: DramView, o: u64) -> Result<u16, MemoryError> {
    checked(o, 2, d.data.len(), if fits(o, 2, d.data.len()) { le16_at(d.data, o as int) } else { 0 })
}

pub open spec fn load32(d: DramView, o: u64) -> Result<u32, MemoryError> {
    checked(o, 4, d.data.len(), word32(d, o))
}

pub open spec fn load64(d: DramView, o: u64) -> Result<u64, MemoryError> {
    checked(o, 8, d.data.len(), word64(d, o))
}

/// A 16-bit load at a guest physical address.
pub open spec fn load16_phys(d: DramView, addr: u64) -> Result<u16, MemoryError> {
    match phys(addr) {
        Ok(o) => load16(d, o),
        Err(e) => Err(e),
    }
}

/// DRAM after an `n`-byte store, or the error.
pub open spec fn store(d: DramView, o: u64, v: u64, n: int) -> Result<DramView, MemoryError> {
    if fits(o, n as nat, d.data.len()) { Ok(with_word(d, o, v, n)) } else { Err(MemoryError::OutOfBounds(o)) }
}

/// Number of available entries not yet served.
pub open spec fn pending_count(last: u16, avail: u16) -> nat {
    ((avail as int - last as int) % 65536) as nat
}

/// Serving one entry leaves one fewer pending.
pub proof fn lemma_pending_step(last: u16, avail: u16)
    requires
        last != avail,
    ensures
        pending_count(last, avail) > 0,
        pending_count(wadd16(last, 1), avail) == pending_count(last, avail) - 1,
{
}

/// A descriptor: buffer address, length, flags and next index.
pub open spec fn desc_spec(d: DramView, queue_desc: u64, idx: u16) -> Result<(u64, u32, u16, u16), MemoryError> {
    match phys(wadd(queue_desc, (idx as u64 * 16) as u64)) {
        Err(e) => Err(e),
        Ok(o) => match load64(d, o) {
            Err(e) => Err(e),
            Ok(addr) => match load32(d, (o + 8) as u64) {
                Err(e) => Err(e),
                Ok(len) => match load16(d, (o + 12) as u64) {
                    Err(e) => Err(e),
                    Ok(flags) => match load16(d, (o + 14) as u64) {
                        Err(e) => Err(e),
                        Ok(next) => Ok((addr, len, flags, next)),
                    },
                },
            },
        },
    }
}

/// Used-ring update of a queue: element (head, bytes) at the used index,
/// then the index advanced; the error with DRAM as far as it got.
pub open spec fn used_ring_spec(queue_used: u64, qsz: u32, d: DramView, head: u16, done: u32) -> Result<DramView, (MemoryError, DramView)> {
    let idx_addr = wadd(queue_used, 2);
    match load16_phys(d, idx_addr) {
        Err(e) => Err((e, d)),
        Ok(ui) => {
            let elem = wadd(wadd(queue_used, 4), ((ui as u64 % qsz as u64) * 8) as u64);
            match phys(elem) {
                Err(e) => Err((e, d)),
                Ok(oe) => match store(d, oe, head as u64, 4) {
                    Err(e) => Err((e, d)),
                    Ok(d1) => match store(d1, (oe + 4) as u64, done as u64, 4) {
                        Err(e) => Err((e, d1)),
                        Ok(d2) => match phys(idx_addr) {
                            Err(e) => Err((e, d2)),
                            Ok(ou) => match store(d2, ou, wadd16(ui, 1) as u64, 2) {
                                Err(e) => Err((e, d2)),
                                Ok(d3) => Ok(d3),
                            },
                        },
                    },
                },
            }
        },
    }
}

/// Descriptor, available-ring and used-ring addresses of a legacy queue of
/// `queue_num` entries at page frame `pfn` (arithmetic modulo 2^64).
pub open spec fn legacy_layout(page_size: u32, queue_num: u32, pfn: u32) -> (u64, u64, u64) {
    let page = page_size as u64;
    let desc = vstd::wrapping::u64_specs::wrapping_mul(pfn as u64, page);
    let avail = wadd(desc, (16 * (queue_num as u64)) as u64);
    let avail_size = (6 + 2 * (queue_num as u64)) as u64;
    let page_mask = vstd::wrapping::u64_specs::wrapping_sub(page, 1);
    let used = wadd(wadd(avail, avail_size), page_mask) & !page_mask;
    (desc, avail, used)
}

/// Queue addresses for a legacy QueuePFN write.
pub fn queue_layout(page_size: u32, queue_num: u32, pfn: u32) -> (r: (u64, u64, u64))
    ensures
        r == legacy_layout(page_size, queue_num, pfn),
{
    let page = page_size as u64;
    let desc = (pfn as u64).wrapping_mul(page);
    let avail = desc.wrapping_add(16 * (queue_num as u64));
    let avail_size = 6 + 2 * (queue_num as u64);
    let page_mask = page.wrapping_sub(1);
    let used = avail.wrapping_add(avail_size).wrapping_add(page_mask) & !page_mask;
    (desc, avail, used)
}

/// Offset into DRAM of a guest physical address.
pub fn phys_to_offset(addr: u64) -> (r: Result<u64, MemoryError>)
    ensures
        r == phys(addr),
{
    if addr < DRAM_BASE {
        return Err(MemoryError::OutOfBounds(addr));
    }
    Ok(addr - DRAM_BASE)
}

/// A 16-bit load at a guest physical address.
pub fn load16_at_phys(dram: &Dram, addr: u64) -> (r: Result<u16, MemoryError>)
    ensures
        r == load16_phys(dram@, addr),
{
    let o = phys_to_offset(addr)?;
    dram.load_16(o)
}

/// Append (head, bytes) to a used ring of `qsz` entries.
pub fn push_used_elem(dram: &mut Dram, queue_used: u64, qsz: u32, head: u16, done: u32) -> (r: Result<(), MemoryError>)
    requires
        qsz > 0,
    ensures
        match used_ring_spec(queue_used, qsz, old(dram)@, head, done) {
            Ok(d1) => r is Ok && final(dram)@ == d1,
            Err((e, d1)) => r == Err::<(), MemoryError>(e) && final(dram)@ == d1,
        },
{
    let idx_addr = queue_used.wrapping_add(2);
    let ui = load16_at_phys(dram, idx_addr)?;
    let elem = queue_used.wrapping_add(4).wrapping_add((ui as u64 % qsz as u64) * 8);
    let oe = phys_to_offset(elem)?;
    dram.store_32(oe, head as u64)?;
    dram.store_32(oe + 4, done as u64)?;
    let ou = phys_to_offset(idx_addr)?;
    dram.store_16(ou, ui.wrapping_add(1) as u64)?;
    Ok(())
}

/// Read a descriptor of the table at `queue_desc`.
pub fn read_desc(dram: &Dram, queue_desc: u64, idx: u16) -> (r: Result<(u64, u32, u16, u16), MemoryError>)
    ensures
        r == desc_spec(dram@, queue_desc, idx),
{
    let o = phys_to_offset(queue_desc.wrapping_add((idx as u64) * 16))?;
    let addr = dram.load_64(o)?;
    let len = dram.load_32(o + 8)?;
    let flags = dram.load_16(o + 12)?;
    let next = dram.load_16(o + 14)?;
    Ok((addr, len, flags, next))
}

/// A VirtIO MMIO device as the system bus drives it.
///
/// Each operation is stated over `Model`, the device's registers and queues
/// as a mathematical value, so that a bus holding several devices can say
/// what each access does to them.
pub trait VirtioDevice: Sized {
    /// The device's state as a mathematical value.
    type Model;

    /// The device's state. A verified device states it; by default nothing
    /// is known of it.
    closed spec fn model(&self) -> Self::Model {
        vstd::pervasive::arbitrary()
    }

    /// What a register read at `offset` returns in state `m`.
    closed spec fn read_result(m: Self::Model, offset: u64) -> Result<u64, MemoryError> {
        vstd::pervasive::arbitrary()
    }

    /// What a register write of `val` at `offset` returns in state `m` with
    /// guest memory `d`, and the device and memory after it.
    closed spec fn write_result(m: Self::Model, offset: u64, val: u64, d: DramView)
        -> (Result<(), MemoryError>, Self::Model, DramView) {
        vstd::pervasive::arbitrary()
    }

    /// What background work does in state `m` with guest memory `d`.
    closed spec fn poll_result(m: Self::Model, d: DramView) -> (Result<(), MemoryError>, Self::Model, DramView) {
        vstd::pervasive::arbitrary()
    }

    /// The interrupt line in state `m`.
    closed spec fn interrupt_line(m: Self::Model) -> bool {
        vstd::pervasive::arbitrary()
    }

    /// Register read at `offset` into the device window.
    fn read(&self, offset: u64) -> (r: Result<u64, MemoryError>)
        ensures
            r == Self::read_result(self.model(), offset);

    /// Register write at `offset`; queue notifications may access guest DRAM.
    fn write(&mut self, offset: u64, val: u64, dram: &mut Dram) -> (r: Result<(), MemoryError>)
        ensures
            (r, final(self).model(), final(dram)@) == Self::write_result(old(self).model(), offset, val, old(dram)@);

    /// The device's interrupt line.
    fn is_interrupting(&self) -> (r: bool)
        ensures
            r == Self::interrupt_line(self.model());

    /// VirtIO device ID.
    fn device_id(&self) -> u32;

    /// Width of a register read at `offset`.
    fn reg_read_size(&self, _offset: u64) -> u64 {
        4
    }

    /// Background work (e.g. delivering queued host input); a device with
    /// none returns `Ok(())` and changes nothing.
    fn poll(&mut self, dram: &mut Dram) -> (r: Result<(), MemoryError>)
        ensures
            (r, final(self).model(), final(dram)@) == Self::poll_result(old(self).model(), old(dram)@);

    /// Whether the host side of the device is connected.
    fn is_backend_connected(&self) -> bool {
        true
    }
}

/// The outcome of a queue notification, as a device's processing spec
/// states it, in the shape a register write returns.
pub open spec fn notify_result<M>(p: Result<(M, DramView), (MemoryError, M, DramView)>) -> (Result<(), MemoryError>, M, DramView) {
    match p {
        Ok((s1, d1)) => (Ok(()), s1, d1),
        Err((e, s1, d1)) => (Err(e), s1, d1),
    }
}

} // verus!
