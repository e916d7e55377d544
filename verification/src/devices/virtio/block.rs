//! VirtIO block device (device ID 2) over an in-memory disk image.
//!
//! Requests use the three-descriptor layout: a 16-byte header (type,
//! reserved, sector), an optional data buffer and an optional status byte.

use vstd::prelude::*;
use crate::dram::{Dram, DramView, MemoryError, fits, write_slice};
use super::device::{
    VirtioDevice, notify_result, CONFIG_GENERATION_OFFSET, DEVICE_FEATURES_OFFSET, DEVICE_FEATURES_SEL_OFFSET, DEVICE_ID_OFFSET,
    DRIVER_FEATURES_OFFSET, DRIVER_FEATURES_SEL_OFFSET, GUEST_PAGE_SIZE_OFFSET, INTERRUPT_ACK_OFFSET,
    INTERRUPT_STATUS_OFFSET, MAGIC_VALUE, MAGIC_VALUE_OFFSET, QUEUE_DESC_HIGH_OFFSET, QUEUE_DESC_LOW_OFFSET,
    QUEUE_DEVICE_HIGH_OFFSET, QUEUE_DEVICE_LOW_OFFSET, QUEUE_DRIVER_HIGH_OFFSET, QUEUE_DRIVER_LOW_OFFSET,
    QUEUE_NOTIFY_OFFSET, QUEUE_NUM_MAX_OFFSET, QUEUE_NUM_OFFSET, QUEUE_PFN_OFFSET, QUEUE_READY_OFFSET,
    QUEUE_SEL_OFFSET, QUEUE_SIZE, STATUS_OFFSET, VENDOR_ID, VENDOR_ID_OFFSET, VERSION, VERSION_OFFSET,
    VIRTIO_BLK_DEVICE_ID, VIRTIO_BLK_F_FLUSH, VRING_DESC_F_NEXT, wadd, wadd16, phys, load8, load32, load64,
    load16_phys, store, pending_count, lemma_pending_step, desc_spec, read_desc, phys_to_offset,
    legacy_layout, queue_layout, load16_at_phys, push_used_elem, used_ring_spec,
};

verus! {

/// Abstract device state.
pub struct BlockView {
    pub driver_features: u32,
    pub driver_features_sel: u32,
    pub device_features_sel: u32,
    pub page_size: u32,
    pub queue_sel: u32,
    pub queue_num: u32,
    pub queue_desc: u64,
    pub queue_avail: u64,
    pub queue_used: u64,
    pub queue_ready: bool,
    pub interrupt_status: u32,
    pub status: u32,
    pub disk: Seq<u8>,
    pub last_avail_idx: u16,
}

/// Ring size in use.
pub open spec fn ring_size(s: BlockView) -> u32 {
    if s.queue_num > 0 { s.queue_num } else { QUEUE_SIZE }
}

/// Head descriptor index of the next available entry and that descriptor.
pub open spec fn head_spec(s: BlockView, d: DramView) -> Result<(u16, (u64, u32, u16, u16)), MemoryError> {
    let slot = (s.last_avail_idx as u32 % ring_size(s)) as u64;
    match load16_phys(d, wadd(wadd(s.queue_avail, 4), (slot * 2) as u64)) {
        Err(e) => Err(e),
        Ok(head) => match desc_spec(d, s.queue_desc, head) {
            Err(e) => Err(e),
            Ok(desc) => Ok((head, desc)),
        },
    }
}

/// Request type and sector from the request header.
pub open spec fn request_spec(d: DramView, header_addr: u64) -> Result<(u32, u64), MemoryError> {
    match phys(header_addr) {
        Err(e) => Err(e),
        Ok(o) => match load32(d, o) {
            Err(e) => Err(e),
            Ok(t) => match load32(d, (o + 4) as u64) {
                Err(e) => Err(e),
                Ok(_) => match load64(d, (o + 8) as u64) {
                    Err(e) => Err(e),
                    Ok(sector) => Ok((t, sector)),
                },
            },
        },
    }
}

/// The sector range lies on the disk.
pub open spec fn range_ok(disk: Seq<u8>, sector: u64, len: u32) -> bool {
    sector * 512 + len <= disk.len()
}

/// Bytes read from `n` consecutive guest physical addresses, up to the first
/// failing read, and that failure.
pub open spec fn gather(d: DramView, addr: u64, n: nat) -> (Seq<u8>, Option<MemoryError>)
    decreases n,
{
    if n == 0 {
        (Seq::empty(), None)
    } else {
        let (pre, err) = gather(d, addr, (n - 1) as nat);
        if err is Some {
            (pre, err)
        } else {
            match phys(wadd(addr, (n - 1) as u64)) {
                Err(e) => (pre, Some(e)),
                Ok(o) => match load8(d, o) {
                    Err(e) => (pre, Some(e)),
                    Ok(b) => (pre.push(b), None),
                },
            }
        }
    }
}

/// Data transfer of a request: disk, DRAM and bytes transferred, or the
/// error with the disk and DRAM as the transfer left them.
pub open spec fn transfer_spec(disk: Seq<u8>, d: DramView, blk_type: u32, sector: u64, data_addr: u64, data_len: u32)
    -> Result<(Seq<u8>, DramView, u32), (MemoryError, Seq<u8>, DramView)>
{
    if !range_ok(disk, sector, data_len) || (blk_type != 0 && blk_type != 1) {
        Ok((disk, d, 0))
    } else if blk_type == 0 {
        let off = sector * 512;
        match phys(data_addr) {
            Err(e) => Err((e, disk, d)),
            Ok(o) => if fits(o, data_len as nat, d.data.len()) {
                Ok((disk, DramView { data: write_slice(d.data, o as int, disk.subrange(off, off + data_len)), ..d }, data_len))
            } else {
                Err((MemoryError::OutOfBounds(o), disk, d))
            },
        }
    } else {
        let (bytes, err) = gather(d, data_addr, data_len as nat);
        let disk1 = write_slice(disk, sector * 512, bytes);
        match err {
            Some(e) => Err((e, disk1, d)),
            None => Ok((disk1, d, data_len)),
        }
    }
}

/// Status byte write through the third descriptor.
pub open spec fn status_spec(d: DramView, queue_desc: u64, idx: u16) -> Result<DramView, MemoryError> {
    match phys(wadd(queue_desc, (idx as u64 * 16) as u64)) {
        Err(e) => Err(e),
        Ok(o) => match load64(d, o) {
            Err(e) => Err(e),
            Ok(status_addr) => match phys(status_addr) {
                Err(e) => Err(e),
                Ok(so) => store(d, so, 0, 1),
            },
        },
    }
}

/// The data stage: second descriptor, transfer, optional status byte.
pub open spec fn data_spec(s: BlockView, d: DramView, blk_type: u32, sector: u64, next: u16)
    -> Result<(Seq<u8>, DramView, u32), (MemoryError, Seq<u8>, DramView)>
{
    match desc_spec(d, s.queue_desc, next) {
        Err(e) => Err((e, s.disk, d)),
        Ok((data_addr, data_len, flags2, next2)) => match transfer_spec(s.disk, d, blk_type, sector, data_addr, data_len) {
            Err(x) => Err(x),
            Ok((disk1, d1, done)) => if (flags2 as u64) & VRING_DESC_F_NEXT != 0 {
                match status_spec(d1, s.queue_desc, next2) {
                    Err(e) => Err((e, disk1, d1)),
                    Ok(d2) => Ok((disk1, d2, done)),
                }
            } else {
                Ok((disk1, d1, done))
            },
        },
    }
}

/// One available request served: the state and DRAM after it, or the error
/// with the state and DRAM as far as the request got.
#[verifier::opaque]
pub open spec fn serve_spec(s: BlockView, d: DramView) -> Result<(BlockView, DramView), (MemoryError, BlockView, DramView)> {
    let advanced = BlockView { last_avail_idx: wadd16(s.last_avail_idx, 1), ..s };
    match head_spec(s, d) {
        Err(e) => Err((e, s, d)),
        Ok((head, (header_addr, header_len, header_flags, next))) => if header_len < 16 {
            Ok((advanced, d))
        } else {
            match request_spec(d, header_addr) {
                Err(e) => Err((e, s, d)),
                Ok((blk_type, sector)) => {
                    let data = if (header_flags as u64) & VRING_DESC_F_NEXT != 0 {
                        data_spec(s, d, blk_type, sector, next)
                    } else {
                        Ok((s.disk, d, 0u32))
                    };
                    match data {
                        Err((e, disk1, d1)) => Err((e, BlockView { disk: disk1, ..s }, d1)),
                        Ok((disk1, d1, done)) => match used_ring_spec(s.queue_used, ring_size(s), d1, head, done) {
                            Err((e, d2)) => Err((e, BlockView { disk: disk1, ..s }, d2)),
                            Ok(d2) => Ok((BlockView { disk: disk1, ..advanced }, d2)),
                        },
                    }
                },
            }
        },
    }
}

/// Serve `k` available requests in order, stopping at the first error.
pub open spec fn drain_spec(s: BlockView, d: DramView, k: nat) -> Result<(BlockView, DramView), (MemoryError, BlockView, DramView)>
    decreases k,
{
    if k == 0 {
        Ok((s, d))
    } else {
        match serve_spec(s, d) {
            Err(x) => Err(x),
            Ok((s1, d1)) => drain_spec(s1, d1, (k - 1) as nat),
        }
    }
}

/// A queue notification: every available request is served in ring order;
/// the interrupt is raised when at least one was.
pub open spec fn process_spec(s: BlockView, d: DramView) -> Result<(BlockView, DramView), (MemoryError, BlockView, DramView)> {
    match load16_phys(d, wadd(s.queue_avail, 2)) {
        Err(e) => Err((e, s, d)),
        Ok(avail) => {
            let k = pending_count(s.last_avail_idx, avail);
            match drain_spec(s, d, k) {
                Err(x) => Err(x),
                Ok((s1, d1)) => Ok((if k > 0 { BlockView { interrupt_status: s1.interrupt_status | 1, ..s1 } } else { s1 }, d1)),
            }
        },
    }
}

/// Value of a register read at `offset`.
pub open spec fn read_spec(s: BlockView, offset: u64) -> u64 {
    if offset == MAGIC_VALUE_OFFSET {
        MAGIC_VALUE
    } else if offset == VERSION_OFFSET {
        VERSION
    } else if offset == DEVICE_ID_OFFSET {
        VIRTIO_BLK_DEVICE_ID as u64
    } else if offset == VENDOR_ID_OFFSET {
        VENDOR_ID
    } else if offset == DEVICE_FEATURES_OFFSET {
        if s.device_features_sel == 0 { 1u64 << VIRTIO_BLK_F_FLUSH } else { 0 }
    } else if offset == DEVICE_FEATURES_SEL_OFFSET {
        s.device_features_sel as u64
    } else if offset == DRIVER_FEATURES_OFFSET {
        s.driver_features as u64
    } else if offset == DRIVER_FEATURES_SEL_OFFSET {
        s.driver_features_sel as u64
    } else if offset == GUEST_PAGE_SIZE_OFFSET {
        s.page_size as u64
    } else if offset == QUEUE_NUM_MAX_OFFSET {
        QUEUE_SIZE as u64
    } else if offset == QUEUE_SEL_OFFSET {
        s.queue_sel as u64
    } else if offset == QUEUE_NUM_OFFSET {
        s.queue_num as u64
    } else if offset == QUEUE_READY_OFFSET {
        if s.queue_ready { 1 } else { 0 }
    } else if offset == INTERRUPT_STATUS_OFFSET {
        s.interrupt_status as u64
    } else if offset == STATUS_OFFSET {
        s.status as u64
    } else if offset == CONFIG_GENERATION_OFFSET {
        0
    } else if offset == 0x100 {
        (s.disk.len() as u64 / 512) & 0xffff_ffff
    } else if offset == 0x104 {
        (s.disk.len() as u64 / 512) >> 32u64
    } else {
        0
    }
}

/// State after a register write other than a queue notification.
pub open spec fn write_reg_spec(s: BlockView, offset: u64, val: u64) -> BlockView {
    let v = val as u32;
    if offset == DEVICE_FEATURES_SEL_OFFSET {
        BlockView { device_features_sel: v, ..s }
    } else if offset == DRIVER_FEATURES_OFFSET {
        BlockView { driver_features: v, ..s }
    } else if offset == DRIVER_FEATURES_SEL_OFFSET {
        BlockView { driver_features_sel: v, ..s }
    } else if offset == QUEUE_SEL_OFFSET {
        BlockView { queue_sel: v, ..s }
    } else if offset == QUEUE_NUM_OFFSET {
        BlockView { queue_num: v, ..s }
    } else if offset == GUEST_PAGE_SIZE_OFFSET {
        BlockView { page_size: v, ..s }
    } else if offset == QUEUE_PFN_OFFSET {
        if v != 0 {
            let (desc, avail, used) = legacy_layout(s.page_size, s.queue_num, v);
            BlockView { queue_desc: desc, queue_avail: avail, queue_used: used, queue_ready: true, ..s }
        } else {
            s
        }
    } else if offset == QUEUE_READY_OFFSET {
        BlockView { queue_ready: v != 0, ..s }
    } else if offset == INTERRUPT_ACK_OFFSET {
        BlockView { interrupt_status: s.interrupt_status & !v, ..s }
    } else if offset == STATUS_OFFSET {
        if v == 0 {
            BlockView { status: 0, queue_ready: false, interrupt_status: 0, last_avail_idx: 0, ..s }
        } else {
            BlockView { status: v, ..s }
        }
    } else if offset == QUEUE_DESC_LOW_OFFSET {
        BlockView { queue_desc: (s.queue_desc & 0xffff_ffff_0000_0000) | (v as u64), ..s }
    } else if offset == QUEUE_DESC_HIGH_OFFSET {
        BlockView { queue_desc: (s.queue_desc & 0x0000_0000_ffff_ffff) | ((v as u64) << 32u64), ..s }
    } else if offset == QUEUE_DRIVER_LOW_OFFSET {
        BlockView { queue_avail: (s.queue_avail & 0xffff_ffff_0000_0000) | (v as u64), ..s }
    } else if offset == QUEUE_DRIVER_HIGH_OFFSET {
        BlockView { queue_avail: (s.queue_avail & 0x0000_0000_ffff_ffff) | ((v as u64) << 32u64), ..s }
    } else if offset == QUEUE_DEVICE_LOW_OFFSET {
        BlockView { queue_used: (s.queue_used & 0xffff_ffff_0000_0000) | (v as u64), ..s }
    } else if offset == QUEUE_DEVICE_HIGH_OFFSET {
        BlockView { queue_used: (s.queue_used & 0x0000_0000_ffff_ffff) | ((v as u64) << 32u64), ..s }
    } else {
        s
    }
}

/// VirtIO block device.
pub struct VirtioBlock {
    driver_features: u32,
    driver_features_sel: u32,
    device_features_sel: u32,
    page_size: u32,
    queue_sel: u32,
    queue_num: u32,
    queue_desc: u64,
    queue_avail: u64,
    queue_used: u64,
    queue_ready: bool,
    interrupt_status: u32,
    status: u32,
    disk: Vec<u8>,
    last_avail_idx: u16,
}

impl View for VirtioBlock {
    type V = BlockView;

    closed spec fn view(&self) -> BlockView {
        BlockView {
            driver_features: self.driver_features,
            driver_features_sel: self.driver_features_sel,
            device_features_sel: self.device_features_sel,
            page_size: self.page_size,
            queue_sel: self.queue_sel,
            queue_num: self.queue_num,
            queue_desc: self.queue_desc,
            queue_avail: self.queue_avail,
            queue_used: self.queue_used,
            queue_ready: self.queue_ready,
            interrupt_status: self.interrupt_status,
            status: self.status,
            disk: self.disk@,
            last_avail_idx: self.last_avail_idx,
        }
    }
}

impl VirtioBlock {
    /// A reset device over `disk_image`.
    pub fn new(disk_image: Vec<u8>) -> (r: Self)
        ensures
            r@ == (BlockView {
                driver_features: 0,
                driver_features_sel: 0,
                device_features_sel: 0,
                page_size: 4096,
                queue_sel: 0,
                queue_num: 0,
                queue_desc: 0,
                queue_avail: 0,
                queue_used: 0,
                queue_ready: false,
                interrupt_status: 0,
                status: 0,
                disk: disk_image@,
                last_avail_idx: 0,
            }),
    {
        Self {
            driver_features: 0,
            driver_features_sel: 0,
            device_features_sel: 0,
            page_size: 4096,
            queue_sel: 0,
            queue_num: 0,
            queue_desc: 0,
            queue_avail: 0,
            queue_used: 0,
            queue_ready: false,
            interrupt_status: 0,
            status: 0,
            disk: disk_image,
            last_avail_idx: 0,
        }
    }

    /// The disk image as the device holds it.
    pub fn disk(&self) -> (r: &[u8])
        ensures
            r@ == self@.disk,
    {
        self.disk.as_slice()
    }

    fn ring_size(&self) -> (r: u32)
        ensures
            r == ring_size(self@),
            r > 0,
    {
        if self.queue_num > 0 { self.queue_num } else { QUEUE_SIZE }
    }

    fn read_head(&self, dram: &Dram) -> (r: Result<(u16, (u64, u32, u16, u16)), MemoryError>)
        ensures
            r == head_spec(self@, dram@),
    {
        let qsz = self.ring_size();
        let ring_slot = (self.last_avail_idx as u32 % qsz) as u64;
        let head = load16_at_phys(dram, self.queue_avail.wrapping_add(4).wrapping_add(ring_slot * 2))?;
        let desc = read_desc(dram, self.queue_desc, head)?;
        Ok((head, desc))
    }

    fn read_request(dram: &Dram, header_addr: u64) -> (r: Result<(u32, u64), MemoryError>)
        ensures
            r == request_spec(dram@, header_addr),
    {
        let o = phys_to_offset(header_addr)?;
        let t = dram.load_32(o)?;
        let _reserved = dram.load_32(o + 4)?;
        let sector = dram.load_64(o + 8)?;
        Ok((t, sector))
    }

    /// Copy `len` guest bytes starting at `data_addr` to the disk at `off`,
    /// stopping at the first failing read.
    fn copy_from_guest(&mut self, dram: &Dram, data_addr: u64, off: usize, len: u32) -> (r: Result<(), MemoryError>)
        requires
            off + len <= old(self)@.disk.len(),
        ensures
            ({
                let (bytes, err) = gather(dram@, data_addr, len as nat);
                &&& final(self)@ == (BlockView { disk: write_slice(old(self)@.disk, off as int, bytes), ..old(self)@ })
                &&& r == match err { Some(e) => Err::<(), MemoryError>(e), None => Ok(()) }
            }),
    {
        let dl = self.disk.len();
        assert(off + len <= dl);
        proof {
            assert(write_slice(old(self)@.disk, off as int, Seq::empty()) =~= old(self)@.disk);
            assert(gather(dram@, data_addr, 0) == (Seq::<u8>::empty(), None::<MemoryError>));
        }
        let mut i: u32 = 0;
        while i < len
            invariant
                i <= len,
                off + len <= old(self)@.disk.len(),
                off + len <= usize::MAX,
                gather(dram@, data_addr, i as nat).1 is None,
                gather(dram@, data_addr, i as nat).0.len() == i,
                self@ == (BlockView { disk: write_slice(old(self)@.disk, off as int, gather(dram@, data_addr, i as nat).0), ..old(self)@ }),
            decreases len - i,
        {
            let o = match phys_to_offset(data_addr.wrapping_add(i as u64)) {
                Ok(o) => o,
                Err(e) => {
                    proof {
                        lemma_gather_stops(dram@, data_addr, (i + 1) as nat, len as nat);
                        assert(write_slice(old(self)@.disk, off as int, gather(dram@, data_addr, len as nat).0) =~= self@.disk);
                    }
                    return Err(e);
                },
            };
            let b = match dram.load_8(o) {
                Ok(b) => b,
                Err(e) => {
                    proof {
                        lemma_gather_stops(dram@, data_addr, (i + 1) as nat, len as nat);
                        assert(write_slice(old(self)@.disk, off as int, gather(dram@, data_addr, len as nat).0) =~= self@.disk);
                    }
                    return Err(e);
                },
            };
            self.disk.set(off + i as usize, b);
            proof {
                let g = gather(dram@, data_addr, (i + 1) as nat).0;
                assert(g == gather(dram@, data_addr, i as nat).0.push(b));
                assert(self@.disk =~= write_slice(old(self)@.disk, off as int, g));
            }
            i = i + 1;
        }
        Ok(())
    }

    fn transfer(&mut self, dram: &mut Dram, blk_type: u32, sector: u64, data_addr: u64, data_len: u32) -> (r: Result<u32, MemoryError>)
        ensures
            match transfer_spec(old(self)@.disk, old(dram)@, blk_type, sector, data_addr, data_len) {
                Ok((disk1, d1, done)) => r == Ok::<u32, MemoryError>(done) && final(self)@ == (BlockView { disk: disk1, ..old(self)@ }) && final(dram)@ == d1,
                Err((e, disk1, d1)) => r == Err::<u32, MemoryError>(e) && final(self)@ == (BlockView { disk: disk1, ..old(self)@ }) && final(dram)@ == d1,
            },
    {
        let dl = self.disk.len() as u64;
        let in_range = sector <= 0x007F_FFFF_FFFF_FFFF && sector * 512 <= dl && (data_len as u64) <= dl - sector * 512;
        proof {
            if sector > 0x007F_FFFF_FFFF_FFFF {
                assert(sector * 512 > u64::MAX);
            }
            assert(in_range == range_ok(self@.disk, sector, data_len));
        }
        if !in_range || (blk_type != 0 && blk_type != 1) {
            return Ok(0);
        }
        let off = (sector * 512) as usize;
        if blk_type == 0 {
            let o = phys_to_offset(data_addr)?;
            let slice = vstd::slice::slice_subrange(self.disk.as_slice(), off, off + data_len as usize);
            dram.write_bytes(o, slice)?;
            Ok(data_len)
        } else {
            self.copy_from_guest(dram, data_addr, off, data_len)?;
            Ok(data_len)
        }
    }

    fn write_status(dram: &mut Dram, queue_desc: u64, idx: u16) -> (r: Result<(), MemoryError>)
        ensures
            match status_spec(old(dram)@, queue_desc, idx) {
                Ok(d1) => r is Ok && final(dram)@ == d1,
                Err(e) => r == Err::<(), MemoryError>(e) && final(dram)@ == old(dram)@,
            },
    {
        let o = phys_to_offset(queue_desc.wrapping_add((idx as u64) * 16))?;
        let status_addr = dram.load_64(o)?;
        let so = phys_to_offset(status_addr)?;
        dram.store_8(so, 0)
    }

    fn data_stage(&mut self, dram: &mut Dram, blk_type: u32, sector: u64, next: u16) -> (r: Result<u32, MemoryError>)
        ensures
            match data_spec(old(self)@, old(dram)@, blk_type, sector, next) {
                Ok((disk1, d1, done)) => r == Ok::<u32, MemoryError>(done) && final(self)@ == (BlockView { disk: disk1, ..old(self)@ }) && final(dram)@ == d1,
                Err((e, disk1, d1)) => r == Err::<u32, MemoryError>(e) && final(self)@ == (BlockView { disk: disk1, ..old(self)@ }) && final(dram)@ == d1,
            },
    {
        let (data_addr, data_len, flags2, next2) = read_desc(dram, self.queue_desc, next)?;
        let done = self.transfer(dram, blk_type, sector, data_addr, data_len)?;
        if (flags2 as u64) & VRING_DESC_F_NEXT != 0 {
            Self::write_status(dram, self.queue_desc, next2)?;
        }
        Ok(done)
    }

    fn serve_one(&mut self, dram: &mut Dram) -> (r: Result<(), MemoryError>)
        ensures
            match serve_spec(old(self)@, old(dram)@) {
                Ok((s1, d1)) => r is Ok && final(self)@ == s1 && final(dram)@ == d1,
                Err((e, s1, d1)) => r == Err::<(), MemoryError>(e) && final(self)@ == s1 && final(dram)@ == d1,
            },
    {
        proof {
            reveal(serve_spec);
        }
        let (head, (header_addr, header_len, header_flags, next)) = self.read_head(dram)?;
        if header_len < 16 {
            self.last_avail_idx = self.last_avail_idx.wrapping_add(1);
            return Ok(());
        }
        let (blk_type, sector) = Self::read_request(dram, header_addr)?;
        let done = if (header_flags as u64) & VRING_DESC_F_NEXT != 0 {
            self.data_stage(dram, blk_type, sector, next)?
        } else {
            0
        };
        let qsz = self.ring_size();
        push_used_elem(dram, self.queue_used, qsz, head, done)?;
        self.last_avail_idx = self.last_avail_idx.wrapping_add(1);
        Ok(())
    }

    fn process_queue(&mut self, dram: &mut Dram) -> (r: Result<(), MemoryError>)
        ensures
            match process_spec(old(self)@, old(dram)@) {
                Ok((s1, d1)) => r is Ok && final(self)@ == s1 && final(dram)@ == d1,
                Err((e, s1, d1)) => r == Err::<(), MemoryError>(e) && final(self)@ == s1 && final(dram)@ == d1,
            },
    {
        let avail_idx = load16_at_phys(dram, self.queue_avail.wrapping_add(2))?;
        let ghost k = pending_count(self.last_avail_idx, avail_idx);
        let ghost total = drain_spec(self@, dram@, k);
        let mut processed_any = false;
        while self.last_avail_idx != avail_idx
            invariant
                drain_spec(self@, dram@, pending_count(self.last_avail_idx, avail_idx)) == total,
                load16_phys(old(dram)@, wadd(old(self)@.queue_avail, 2)) == Ok::<u16, MemoryError>(avail_idx),
                total == drain_spec(old(self)@, old(dram)@, k),
                processed_any == (pending_count(self.last_avail_idx, avail_idx) < k),
                pending_count(self.last_avail_idx, avail_idx) <= k,
                k == pending_count(old(self)@.last_avail_idx, avail_idx),
                self@.queue_avail == old(self)@.queue_avail,
            decreases pending_count(self.last_avail_idx, avail_idx),
        {
            let ghost before = self.last_avail_idx;
            let ghost s0 = self@;
            let ghost d0 = dram@;
            proof {
                lemma_pending_step(before, avail_idx);
                lemma_serve_advances(s0, d0);
            }
            self.serve_one(dram)?;
            processed_any = true;
        }
        if processed_any {
            self.interrupt_status = self.interrupt_status | 1;
        }
        Ok(())
    }
}

proof fn lemma_serve_advances(s: BlockView, d: DramView)
    ensures
        serve_spec(s, d) matches Ok((s1, _)) ==> s1.last_avail_idx == wadd16(s.last_avail_idx, 1) && s1.queue_avail == s.queue_avail,
{
    reveal(serve_spec);
}

/// Once a gathered read fails, later lengths gather the same bytes and error.
proof fn lemma_gather_stops(d: DramView, addr: u64, m: nat, n: nat)
    requires
        m <= n,
        gather(d, addr, m).1 is Some,
    ensures
        gather(d, addr, n) == gather(d, addr, m),
    decreases n - m,
{
    if n > m {
        lemma_gather_stops(d, addr, m, (n - 1) as nat);
    }
}

impl VirtioDevice for VirtioBlock {
    type Model = BlockView;

    open spec fn model(&self) -> BlockView {
        self@
    }

    open spec fn read_result(m: BlockView, offset: u64) -> Result<u64, MemoryError> {
        Ok(read_spec(m, offset))
    }

    open spec fn write_result(m: BlockView, offset: u64, val: u64, d: DramView) -> (Result<(), MemoryError>, BlockView, DramView) {
        if offset == QUEUE_NOTIFY_OFFSET && val as u32 == 0 {
            notify_result(process_spec(m, d))
        } else {
            (Ok(()), write_reg_spec(m, offset, val), d)
        }
    }

    open spec fn poll_result(m: BlockView, d: DramView) -> (Result<(), MemoryError>, BlockView, DramView) {
        (Ok(()), m, d)
    }

    open spec fn interrupt_line(m: BlockView) -> bool {
        m.interrupt_status != 0
    }

    fn read(&self, offset: u64) -> (r: Result<u64, MemoryError>)
        ensures
            r == Ok::<u64, MemoryError>(read_spec(self@, offset)),
    {
        let val = if offset == MAGIC_VALUE_OFFSET {
            MAGIC_VALUE
        } else if offset == VERSION_OFFSET {
            VERSION
        } else if offset == DEVICE_ID_OFFSET {
            VIRTIO_BLK_DEVICE_ID as u64
        } else if offset == VENDOR_ID_OFFSET {
            VENDOR_ID
        } else if offset == DEVICE_FEATURES_OFFSET {
            if self.device_features_sel == 0 { 1u64 << VIRTIO_BLK_F_FLUSH } else { 0 }
        } else if offset == DEVICE_FEATURES_SEL_OFFSET {
            self.device_features_sel as u64
        } else if offset == DRIVER_FEATURES_OFFSET {
            self.driver_features as u64
        } else if offset == DRIVER_FEATURES_SEL_OFFSET {
            self.driver_features_sel as u64
        } else if offset == GUEST_PAGE_SIZE_OFFSET {
            self.page_size as u64
        } else if offset == QUEUE_NUM_MAX_OFFSET {
            QUEUE_SIZE as u64
        } else if offset == QUEUE_SEL_OFFSET {
            self.queue_sel as u64
        } else if offset == QUEUE_NUM_OFFSET {
            self.queue_num as u64
        } else if offset == QUEUE_READY_OFFSET {
            if self.queue_ready { 1 } else { 0 }
        } else if offset == INTERRUPT_STATUS_OFFSET {
            self.interrupt_status as u64
        } else if offset == STATUS_OFFSET {
            self.status as u64
        } else if offset == CONFIG_GENERATION_OFFSET {
            0
        } else if offset == 0x100 {
            (self.disk.len() as u64 / 512) & 0xffff_ffff
        } else if offset == 0x104 {
            (self.disk.len() as u64 / 512) >> 32u64
        } else {
            0
        };
        Ok(val)
    }

    fn write(&mut self, offset: u64, val: u64, dram: &mut Dram) -> (r: Result<(), MemoryError>)
        ensures
            offset == QUEUE_NOTIFY_OFFSET && val as u32 == 0 ==> match process_spec(old(self)@, old(dram)@) {
                Ok((s1, d1)) => r is Ok && final(self)@ == s1 && final(dram)@ == d1,
                Err((e, s1, d1)) => r == Err::<(), MemoryError>(e) && final(self)@ == s1 && final(dram)@ == d1,
            },
            !(offset == QUEUE_NOTIFY_OFFSET && val as u32 == 0) ==> r is Ok && final(self)@ == write_reg_spec(old(self)@, offset, val)
                && final(dram)@ == old(dram)@,
    {
        let val32 = val as u32;
        if offset == DEVICE_FEATURES_SEL_OFFSET {
            self.device_features_sel = val32;
        } else if offset == DRIVER_FEATURES_OFFSET {
            self.driver_features = val32;
        } else if offset == DRIVER_FEATURES_SEL_OFFSET {
            self.driver_features_sel = val32;
        } else if offset == QUEUE_SEL_OFFSET {
            self.queue_sel = val32;
        } else if offset == QUEUE_NUM_OFFSET {
            self.queue_num = val32;
        } else if offset == GUEST_PAGE_SIZE_OFFSET {
            self.page_size = val32;
        } else if offset == QUEUE_PFN_OFFSET {
            if val32 != 0 {
                let (desc, avail, used) = queue_layout(self.page_size, self.queue_num, val32);
                self.queue_desc = desc;
                self.queue_avail = avail;
                self.queue_used = used;
                self.queue_ready = true;
            }
        } else if offset == QUEUE_READY_OFFSET {
            self.queue_ready = val32 != 0;
        } else if offset == QUEUE_NOTIFY_OFFSET {
            if val32 == 0 {
                let r = self.process_queue(dram);
                match r {
                    Ok(_) => return Ok(()),
                    Err(e) => return Err(e),
                }
            }
        } else if offset == INTERRUPT_ACK_OFFSET {
            self.interrupt_status = self.interrupt_status & !val32;
        } else if offset == STATUS_OFFSET {
            if val32 == 0 {
                self.status = 0;
                self.queue_ready = false;
                self.interrupt_status = 0;
                self.last_avail_idx = 0;
            } else {
                self.status = val32;
            }
        } else if offset == QUEUE_DESC_LOW_OFFSET {
            self.queue_desc = (self.queue_desc & 0xffff_ffff_0000_0000) | (val32 as u64);
        } else if offset == QUEUE_DESC_HIGH_OFFSET {
            self.queue_desc = (self.queue_desc & 0x0000_0000_ffff_ffff) | ((val32 as u64) << 32u64);
        } else if offset == QUEUE_DRIVER_LOW_OFFSET {
            self.queue_avail = (self.queue_avail & 0xffff_ffff_0000_0000) | (val32 as u64);
        } else if offset == QUEUE_DRIVER_HIGH_OFFSET {
            self.queue_avail = (self.queue_avail & 0x0000_0000_ffff_ffff) | ((val32 as u64) << 32u64);
        } else if offset == QUEUE_DEVICE_LOW_OFFSET {
            self.queue_used = (self.queue_used & 0xffff_ffff_0000_0000) | (val32 as u64);
        } else if offset == QUEUE_DEVICE_HIGH_OFFSET {
            self.queue_used = (self.queue_used & 0x0000_0000_ffff_ffff) | ((val32 as u64) << 32u64);
        }
        Ok(())
    }

    fn is_interrupting(&self) -> (r: bool)
        ensures
            r == (self@.interrupt_status != 0),
    {
        self.interrupt_status != 0
    }

    fn device_id(&self) -> (r: u32)
        ensures
            r == VIRTIO_BLK_DEVICE_ID,
    {
        VIRTIO_BLK_DEVICE_ID
    }

    fn poll(&mut self, _dram: &mut Dram) -> (r: Result<(), MemoryError>) {
        Ok(())
    }
}

} // verus!
