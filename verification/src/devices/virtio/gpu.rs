//! VirtIO GPU device (device ID 16): 2D resources backed by guest pages,
//! one scanout, and frames handed to the host on flush.

use vstd::prelude::*;
use std::collections::HashMap;
use crate::dram::{Dram, DramView, MemoryError, fits, word32, write_slice};
use super::device::{
    VirtioDevice, notify_result, CONFIG_GENERATION_OFFSET, DEVICE_FEATURES_OFFSET, DEVICE_FEATURES_SEL_OFFSET, DEVICE_ID_OFFSET,
    DRIVER_FEATURES_OFFSET, DRIVER_FEATURES_SEL_OFFSET, GUEST_PAGE_SIZE_OFFSET, INTERRUPT_ACK_OFFSET,
    INTERRUPT_STATUS_OFFSET, MAGIC_VALUE, MAGIC_VALUE_OFFSET, QUEUE_DESC_HIGH_OFFSET, QUEUE_DESC_LOW_OFFSET,
    QUEUE_DEVICE_HIGH_OFFSET, QUEUE_DEVICE_LOW_OFFSET, QUEUE_DRIVER_HIGH_OFFSET, QUEUE_DRIVER_LOW_OFFSET,
    QUEUE_NOTIFY_OFFSET, QUEUE_NUM_MAX_OFFSET, QUEUE_NUM_OFFSET, QUEUE_PFN_OFFSET, QUEUE_READY_OFFSET,
    QUEUE_SEL_OFFSET, QUEUE_SIZE, STATUS_OFFSET, VENDOR_ID, VENDOR_ID_OFFSET, VERSION, VERSION_OFFSET,
    VRING_DESC_F_NEXT, wadd, wadd16, phys, load32, load64, load16_phys, store, pending_count,
    lemma_pending_step, used_ring_spec, phys_to_offset, load16_at_phys, push_used_elem, desc_spec, read_desc,
    legacy_layout, queue_layout,
};

verus! {

broadcast use vstd::std_specs::hash::group_hash_axioms;

/// VirtIO GPU device ID.
pub const VIRTIO_GPU_DEVICE_ID: u32 = 16;

pub const VIRTIO_GPU_CMD_GET_DISPLAY_INFO: u32 = 0x0100;
pub const VIRTIO_GPU_CMD_RESOURCE_CREATE_2D: u32 = 0x0101;
pub const VIRTIO_GPU_CMD_RESOURCE_UNREF: u32 = 0x0102;
pub const VIRTIO_GPU_CMD_SET_SCANOUT: u32 = 0x0103;
pub const VIRTIO_GPU_CMD_RESOURCE_FLUSH: u32 = 0x0104;
pub const VIRTIO_GPU_CMD_TRANSFER_TO_HOST_2D: u32 = 0x0105;
pub const VIRTIO_GPU_CMD_RESOURCE_ATTACH_BACKING: u32 = 0x0106;
pub const VIRTIO_GPU_CMD_RESOURCE_DETACH_BACKING: u32 = 0x0107;

pub const VIRTIO_GPU_RESP_OK_NODATA: u32 = 0x1100;
pub const VIRTIO_GPU_RESP_OK_DISPLAY_INFO: u32 = 0x1101;
pub const VIRTIO_GPU_RESP_ERR_UNSPEC: u32 = 0x1200;

pub const VIRTIO_GPU_FORMAT_B8G8R8A8_UNORM: u32 = 1;
pub const VIRTIO_GPU_FORMAT_R8G8B8A8_UNORM: u32 = 67;

/// Default display width.
pub const DEFAULT_WIDTH: u32 = 800;
/// Default display height.
pub const DEFAULT_HEIGHT: u32 = 600;
/// Number of scanouts.
pub const MAX_SCANOUTS: usize = 1;

/// A 2D resource: its backing pages in guest memory and host pixels.
pub struct Resource2D {
    id: u32,
    width: u32,
    height: u32,
    format: u32,
    backing_pages: Vec<(u64, u32)>,
    pixels: Vec<u8>,
}

/// Abstract resource.
pub struct ResourceView {
    pub id: u32,
    pub width: u32,
    pub height: u32,
    pub format: u32,
    pub backing: Seq<(u64, u32)>,
    pub pixels: Seq<u8>,
}

impl View for Resource2D {
    type V = ResourceView;

    closed spec fn view(&self) -> ResourceView {
        ResourceView {
            id: self.id,
            width: self.width,
            height: self.height,
            format: self.format,
            backing: self.backing_pages@,
            pixels: self.pixels@,
        }
    }
}

/// Scanout configuration.
#[derive(Clone, Copy)]
pub struct Scanout {
    pub resource_id: u32,
    pub x: u32,
    pub y: u32,
    pub width: u32,
    pub height: u32,
}

/// Abstract device state.
pub struct GpuView {
    pub driver_features: u32,
    pub driver_features_sel: u32,
    pub device_features_sel: u32,
    pub page_size: u32,
    pub queue_sel: u32,
    pub queue_num: u32,
    pub queue_desc: u64,
    pub queue_avail: u64,
    pub queue_used: u64,
    pub queue_ready: bool,
    pub interrupt_status: u32,
    pub status: u32,
    pub last_avail_idx: u16,
    pub resources: Map<u32, ResourceView>,
    pub scanout: Option<Scanout>,
    pub display_width: u32,
    pub display_height: u32,
    pub pending_frame: Option<Seq<u8>>,
    pub frame_dirty: bool,
}

/// DRAM after a sequence of stores `(offset, value, width)`, stopping at
/// the first that fails.
pub open spec fn store_ops(d: DramView, ops: Seq<(u64, u64, u64)>) -> Result<DramView, (MemoryError, DramView)>
    decreases ops.len(),
{
    if ops.len() == 0 {
        Ok(d)
    } else {
        match store(d, ops[0].0, ops[0].1, ops[0].2 as int) {
            Err(e) => Err((e, d)),
            Ok(d1) => store_ops(d1, ops.drop_first()),
        }
    }
}

/// The 24-byte response header: type, flags, fence, context, padding.
pub open spec fn header_ops(off: u64, resp_type: u32) -> Seq<(u64, u64, u64)> {
    seq![(off, resp_type as u64, 4u64), ((off + 4) as u64, 0u64, 4u64), ((off + 8) as u64, 0u64, 8u64),
        ((off + 16) as u64, 0u64, 4u64), ((off + 20) as u64, 0u64, 4u64)]
}

/// The display-info response: header, one enabled display, fifteen empty ones.
pub open spec fn display_info_ops(off: u64, width: u32, height: u32) -> Seq<(u64, u64, u64)> {
    header_ops(off, VIRTIO_GPU_RESP_OK_DISPLAY_INFO)
        + seq![((off + 24) as u64, 0u64, 4u64), ((off + 28) as u64, 0u64, 4u64), ((off + 32) as u64, width as u64, 4u64),
            ((off + 36) as u64, height as u64, 4u64), ((off + 40) as u64, 1u64, 4u64), ((off + 44) as u64, 0u64, 4u64)]
        + Seq::new(90, |t: int| ((off + 24 + (1 + t / 6) * 24 + (t % 6) * 4) as u64, 0u64, 4u64))
}

/// Backing entries `(address, length)` read from guest memory, up to the
/// first failing read, and that failure.
pub open spec fn gather_entries(d: DramView, base: u64, n: nat) -> (Seq<(u64, u32)>, Option<MemoryError>)
    decreases n,
{
    if n == 0 {
        (Seq::empty(), None)
    } else {
        let (pre, err) = gather_entries(d, base, (n - 1) as nat);
        if err is Some {
            (pre, err)
        } else {
            let at = wadd(base, ((n - 1) * 16) as u64);
            match load64(d, at) {
                Err(e) => (pre, Some(e)),
                Ok(addr) => match load32(d, wadd(at, 8)) {
                    Err(e) => (pre, Some(e)),
                    Ok(len) => (pre.push((addr, len)), None),
                },
            }
        }
    }
}

/// Pixels after copying backing pages `i..` in order from `dst` on, up to
/// the first failure, and that failure.
pub open spec fn blit(d: DramView, pages: Seq<(u64, u32)>, i: nat, pixels: Seq<u8>, dst: nat) -> (Seq<u8>, Option<MemoryError>)
    decreases pages.len() - i,
{
    if i >= pages.len() || dst > pixels.len() {
        (pixels, None)
    } else {
        let (addr, plen) = pages[i as int];
        match phys(addr) {
            Err(e) => (pixels, Some(e)),
            Ok(off) => {
                let room = (pixels.len() - dst) as nat;
                let len: nat = if (plen as nat) < room { plen as nat } else { room };
                let o = off as usize as u64;
                if len == 0 {
                    blit(d, pages, i + 1, pixels, dst)
                } else if fits(o, len, d.data.len()) {
                    blit(d, pages, i + 1, write_slice(pixels, dst as int, d.data.subrange(o as int, o + len)), dst + len)
                } else {
                    (pixels, Some(MemoryError::OutOfBounds(o)))
                }
            },
        }
    }
}

/// Pixel buffer size of a new resource (modulo 2^32).
pub open spec fn pixel_len(width: u32, height: u32) -> u32 {
    vstd::wrapping::u32_specs::wrapping_mul(vstd::wrapping::u32_specs::wrapping_mul(width, height), 4)
}

/// A command's effect on the device, the response stores and the bytes it reports.
pub struct CommandEffect {
    pub state: GpuView,
    pub resp: Seq<(u64, u64, u64)>,
    pub bytes: u32,
}

/// Reads of the command body at `cmd` and the resulting effect, or the
/// failing read with the state as far as the command got.
pub open spec fn command_body(s: GpuView, d: DramView, cmd_type: u32, cmd: u64, resp_off: u64)
    -> Result<CommandEffect, (MemoryError, GpuView)>
{
    let ok_header = header_ops(resp_off, VIRTIO_GPU_RESP_OK_NODATA);
    if cmd_type == VIRTIO_GPU_CMD_GET_DISPLAY_INFO {
        Ok(CommandEffect { state: s, resp: display_info_ops(resp_off, s.display_width, s.display_height), bytes: 408 })
    } else if cmd_type == VIRTIO_GPU_CMD_RESOURCE_CREATE_2D {
        match (load32(d, (cmd + 24) as u64), load32(d, (cmd + 28) as u64), load32(d, (cmd + 32) as u64), load32(d, (cmd + 36) as u64)) {
            (Ok(id), Ok(format), Ok(width), Ok(height)) => {
                let res = ResourceView {
                    id, width, height, format,
                    backing: Seq::empty(),
                    pixels: Seq::new(pixel_len(width, height) as nat, |i: int| 0u8),
                };
                Ok(CommandEffect { state: GpuView { resources: s.resources.insert(id, res), ..s }, resp: ok_header, bytes: 24 })
            },
            (Err(e), _, _, _) | (Ok(_), Err(e), _, _) | (Ok(_), Ok(_), Err(e), _) | (Ok(_), Ok(_), Ok(_), Err(e)) => Err((e, s)),
        }
    } else if cmd_type == VIRTIO_GPU_CMD_RESOURCE_ATTACH_BACKING {
        match (load32(d, (cmd + 24) as u64), load32(d, (cmd + 28) as u64)) {
            (Ok(id), Ok(nr)) => if s.resources.contains_key(id) {
                let (entries, err) = gather_entries(d, (cmd + 32) as u64, nr as nat);
                let s1 = GpuView { resources: s.resources.insert(id, ResourceView { backing: entries, ..s.resources[id] }), ..s };
                match err {
                    Some(e) => Err((e, s1)),
                    None => Ok(CommandEffect { state: s1, resp: ok_header, bytes: 24 }),
                }
            } else {
                Ok(CommandEffect { state: s, resp: ok_header, bytes: 24 })
            },
            (Err(e), _) | (Ok(_), Err(e)) => Err((e, s)),
        }
    } else if cmd_type == VIRTIO_GPU_CMD_SET_SCANOUT {
        match (load32(d, (cmd + 24) as u64), load32(d, (cmd + 28) as u64), load32(d, (cmd + 32) as u64),
            load32(d, (cmd + 36) as u64), load32(d, (cmd + 40) as u64), load32(d, (cmd + 44) as u64)) {
            (Ok(x), Ok(y), Ok(width), Ok(height), Ok(scanout_id), Ok(rid)) => {
                let s1 = if (scanout_id as nat) < MAX_SCANOUTS {
                    GpuView { scanout: if rid == 0 { None } else { Some(Scanout { resource_id: rid, x, y, width, height }) }, ..s }
                } else {
                    s
                };
                Ok(CommandEffect { state: s1, resp: ok_header, bytes: 24 })
            },
            (Err(e), _, _, _, _, _) | (Ok(_), Err(e), _, _, _, _) | (Ok(_), Ok(_), Err(e), _, _, _)
            | (Ok(_), Ok(_), Ok(_), Err(e), _, _) | (Ok(_), Ok(_), Ok(_), Ok(_), Err(e), _)
            | (Ok(_), Ok(_), Ok(_), Ok(_), Ok(_), Err(e)) => Err((e, s)),
        }
    } else if cmd_type == VIRTIO_GPU_CMD_TRANSFER_TO_HOST_2D {
        match (load32(d, (cmd + 24) as u64), load32(d, (cmd + 28) as u64), load32(d, (cmd + 32) as u64),
            load32(d, (cmd + 36) as u64), load64(d, (cmd + 40) as u64), load32(d, (cmd + 48) as u64), load32(d, (cmd + 52) as u64)) {
            (Ok(_), Ok(_), Ok(_), Ok(_), Ok(_), Ok(rid), Ok(_)) => if s.resources.contains_key(rid) {
                let r = s.resources[rid];
                let (pixels, err) = blit(d, r.backing, 0, r.pixels, 0);
                let s1 = GpuView { resources: s.resources.insert(rid, ResourceView { pixels, ..r }), ..s };
                match err {
                    Some(e) => Err((e, s1)),
                    None => Ok(CommandEffect { state: s1, resp: ok_header, bytes: 24 }),
                }
            } else {
                Ok(CommandEffect { state: s, resp: ok_header, bytes: 24 })
            },
            (Err(e), _, _, _, _, _, _) | (Ok(_), Err(e), _, _, _, _, _) | (Ok(_), Ok(_), Err(e), _, _, _, _)
            | (Ok(_), Ok(_), Ok(_), Err(e), _, _, _) | (Ok(_), Ok(_), Ok(_), Ok(_), Err(e), _, _)
            | (Ok(_), Ok(_), Ok(_), Ok(_), Ok(_), Err(e), _) | (Ok(_), Ok(_), Ok(_), Ok(_), Ok(_), Ok(_), Err(e)) => Err((e, s)),
        }
    } else if cmd_type == VIRTIO_GPU_CMD_RESOURCE_FLUSH {
        match (load32(d, (cmd + 24) as u64), load32(d, (cmd + 28) as u64), load32(d, (cmd + 32) as u64),
            load32(d, (cmd + 36) as u64), load32(d, (cmd + 40) as u64)) {
            (Ok(_), Ok(_), Ok(_), Ok(_), Ok(rid)) => {
                let shown = s.scanout matches Some(sc) && sc.resource_id == rid && s.resources.contains_key(rid);
                let s1 = if shown { GpuView { pending_frame: Some(s.resources[rid].pixels), frame_dirty: true, ..s } } else { s };
                Ok(CommandEffect { state: s1, resp: ok_header, bytes: 24 })
            },
            (Err(e), _, _, _, _) | (Ok(_), Err(e), _, _, _) | (Ok(_), Ok(_), Err(e), _, _)
            | (Ok(_), Ok(_), Ok(_), Err(e), _) | (Ok(_), Ok(_), Ok(_), Ok(_), Err(e)) => Err((e, s)),
        }
    } else if cmd_type == VIRTIO_GPU_CMD_RESOURCE_UNREF {
        match load32(d, (cmd + 24) as u64) {
            Ok(rid) => Ok(CommandEffect { state: GpuView { resources: s.resources.remove(rid), ..s }, resp: ok_header, bytes: 24 }),
            Err(e) => Err((e, s)),
        }
    } else if cmd_type == VIRTIO_GPU_CMD_RESOURCE_DETACH_BACKING {
        match load32(d, (cmd + 24) as u64) {
            Ok(rid) => {
                let s1 = if s.resources.contains_key(rid) {
                    GpuView { resources: s.resources.insert(rid, ResourceView { backing: Seq::empty(), ..s.resources[rid] }), ..s }
                } else {
                    s
                };
                Ok(CommandEffect { state: s1, resp: ok_header, bytes: 24 })
            },
            Err(e) => Err((e, s)),
        }
    } else {
        Ok(CommandEffect { state: s, resp: header_ops(resp_off, VIRTIO_GPU_RESP_ERR_UNSPEC), bytes: 24 })
    }
}

/// The first five header reads of a command at `cmd`; the type is the first word.
pub open spec fn header_reads(d: DramView, cmd: u64) -> Result<u32, MemoryError> {
    match (load32(d, cmd), load32(d, (cmd + 4) as u64), load64(d, (cmd + 8) as u64), load32(d, (cmd + 16) as u64), load32(d, (cmd + 20) as u64)) {
        (Ok(t), Ok(_), Ok(_), Ok(_), Ok(_)) => Ok(t),
        (Err(e), _, _, _, _) | (Ok(_), Err(e), _, _, _) | (Ok(_), Ok(_), Err(e), _, _)
        | (Ok(_), Ok(_), Ok(_), Err(e), _) | (Ok(_), Ok(_), Ok(_), Ok(_), Err(e)) => Err(e),
    }
}

/// Outcome of a command: the body's effect, then the response stores at the
/// response address; the error with state and DRAM as far as they got.
pub open spec fn finish(s: GpuView, d: DramView, body: Result<CommandEffect, (MemoryError, GpuView)>, resp: Result<u64, MemoryError>)
    -> Result<(GpuView, DramView, u32), (MemoryError, GpuView, DramView)>
{
    match body {
        Err((e, s1)) => Err((e, s1, d)),
        Ok(eff) => match resp {
            Err(e) => Err((e, eff.state, d)),
            Ok(_) => match store_ops(d, eff.resp) {
                Err((e, d1)) => Err((e, eff.state, d1)),
                Ok(d1) => Ok((eff.state, d1, eff.bytes)),
            },
        },
    }
}

/// DRAM offset of the response buffer (0 when the address is not in DRAM).
pub open spec fn resp_off(resp_addr: u64) -> u64 {
    match phys(resp_addr) {
        Ok(o) => o,
        Err(_) => 0,
    }
}

/// A command of type `cmd_type` at DRAM offset `cmd` answered at `resp_addr`.
pub open spec fn respond_spec(s: GpuView, d: DramView, cmd_type: u32, cmd: u64, resp_addr: u64)
    -> Result<(GpuView, DramView, u32), (MemoryError, GpuView, DramView)>
{
    finish(s, d, command_body(s, d, cmd_type, cmd, resp_off(resp_addr)), phys(resp_addr))
}

/// One command chain at `desc_idx`: state, DRAM and reported bytes, or the
/// error with state and DRAM as far as the command got.
#[verifier::opaque]
pub open spec fn command_spec(s: GpuView, d: DramView, desc_idx: u16) -> Result<(GpuView, DramView, u32), (MemoryError, GpuView, DramView)> {
    match desc_spec(d, s.queue_desc, desc_idx) {
        Err(e) => Err((e, s, d)),
        Ok((cmd_addr, cmd_len, flags, next)) => if cmd_len < 24 {
            Ok((s, d, 0))
        } else {
            match phys(cmd_addr) {
                Err(e) => Err((e, s, d)),
                Ok(cmd) => match header_reads(d, cmd) {
                    Err(e) => Err((e, s, d)),
                    Ok(cmd_type) => if (flags as u64) & VRING_DESC_F_NEXT == 0 {
                        Ok((s, d, 0))
                    } else {
                        match phys(wadd(s.queue_desc, (next as u64 * 16) as u64)) {
                            Err(e) => Err((e, s, d)),
                            Ok(ro) => match (load64(d, ro), load32(d, (ro + 8) as u64)) {
                                (Ok(resp_addr), Ok(_)) => respond_spec(s, d, cmd_type, cmd, resp_addr),
                                (Err(e), _) | (Ok(_), Err(e)) => Err((e, s, d)),
                            },
                        }
                    },
                },
            }
        },
    }
}

/// `r`, the state and DRAM after a call agree with an outcome.
pub open spec fn outcome_holds<T>(r: Result<T, MemoryError>, s1: GpuView, d1: DramView,
    o: Result<(GpuView, DramView, T), (MemoryError, GpuView, DramView)>) -> bool
{
    match o {
        Ok((s, d, v)) => r == Ok::<T, MemoryError>(v) && s1 == s && d1 == d,
        Err((e, s, d)) => r == Err::<T, MemoryError>(e) && s1 == s && d1 == d,
    }
}

/// Stores `ops` outcome: `r` and DRAM after the call.
pub open spec fn stores_hold(r: Result<(), MemoryError>, d1: DramView, o: Result<DramView, (MemoryError, DramView)>) -> bool {
    match o {
        Ok(d) => r is Ok && d1 == d,
        Err((e, d)) => r == Err::<(), MemoryError>(e) && d1 == d,
    }
}

/// Views of the resources of a map.
pub open spec fn resource_views(m: Map<u32, Resource2D>) -> Map<u32, ResourceView> {
    m.map_values(|r: Resource2D| r@)
}

proof fn lemma_views_insert(m: Map<u32, Resource2D>, k: u32, v: Resource2D)
    ensures
        resource_views(m.insert(k, v)) == resource_views(m).insert(k, v@),
{
    assert(resource_views(m.insert(k, v)) =~= resource_views(m).insert(k, v@));
}

proof fn lemma_views_remove(m: Map<u32, Resource2D>, k: u32)
    ensures
        resource_views(m.remove(k)) == resource_views(m).remove(k),
{
    assert(resource_views(m.remove(k)) =~= resource_views(m).remove(k));
}

/// Running stores in order: the first ones, then the rest.
proof fn lemma_store_ops_step(d: DramView, ops: Seq<(u64, u64, u64)>, k: int)
    requires
        0 <= k < ops.len(),
    ensures
        store_ops(d, ops.skip(k)) == match store(d, ops[k].0, ops[k].1, ops[k].2 as int) {
            Err(e) => Err((e, d)),
            Ok(d1) => store_ops(d1, ops.skip(k + 1)),
        },
{
    assert(ops.skip(k)[0] == ops[k]);
    assert(ops.skip(k).drop_first() =~= ops.skip(k + 1));
}

/// Ring size in use.
pub open spec fn gpu_ring_size(s: GpuView) -> u32 {
    if s.queue_num > 0 { s.queue_num } else { QUEUE_SIZE }
}

/// One available command served: the state and DRAM after it and its
/// used-ring entry, or the error with both as far as they got.
#[verifier::opaque]
pub open spec fn serve_spec(s: GpuView, d: DramView) -> Result<(GpuView, DramView), (MemoryError, GpuView, DramView)> {
    let qsz = gpu_ring_size(s);
    let slot = (s.last_avail_idx as u32 % qsz) as u64;
    match load16_phys(d, wadd(wadd(s.queue_avail, 4), (slot * 2) as u64)) {
        Err(e) => Err((e, s, d)),
        Ok(head) => match command_spec(s, d, head) {
            Err((e, s1, d1)) => Err((e, s1, d1)),
            Ok((s1, d1, bytes)) => match used_ring_spec(s1.queue_used, qsz, d1, head, bytes) {
                Err((e, d2)) => Err((e, s1, d2)),
                Ok(d2) => Ok((GpuView { last_avail_idx: wadd16(s1.last_avail_idx, 1), ..s1 }, d2)),
            },
        },
    }
}

/// Serve `k` available commands in order, stopping at the first error.
pub open spec fn drain_spec(s: GpuView, d: DramView, k: nat) -> Result<(GpuView, DramView), (MemoryError, GpuView, DramView)>
    decreases k,
{
    if k == 0 {
        Ok((s, d))
    } else {
        match serve_spec(s, d) {
            Err(x) => Err(x),
            Ok((s1, d1)) => drain_spec(s1, d1, (k - 1) as nat),
        }
    }
}

/// A control-queue notification: nothing while the queue is unconfigured;
/// otherwise every available command is served in ring order and the
/// interrupt is raised when at least one was.
pub open spec fn process_spec(s: GpuView, d: DramView) -> Result<(GpuView, DramView), (MemoryError, GpuView, DramView)> {
    if s.queue_avail == 0 || s.queue_desc == 0 {
        Ok((s, d))
    } else {
        match load16_phys(d, wadd(s.queue_avail, 2)) {
            Err(e) => Err((e, s, d)),
            Ok(avail) => {
                let k = pending_count(s.last_avail_idx, avail);
                match drain_spec(s, d, k) {
                    Err(x) => Err(x),
                    Ok((s1, d1)) => Ok((if k > 0 { GpuView { interrupt_status: s1.interrupt_status | 1, ..s1 } } else { s1 }, d1)),
                }
            },
        }
    }
}

/// Value of a register read at `offset`.
pub open spec fn read_spec(s: GpuView, offset: u64) -> u64 {
    if offset == MAGIC_VALUE_OFFSET {
        MAGIC_VALUE
    } else if offset == VERSION_OFFSET {
        VERSION
    } else if offset == DEVICE_ID_OFFSET {
        VIRTIO_GPU_DEVICE_ID as u64
    } else if offset == VENDOR_ID_OFFSET {
        VENDOR_ID
    } else if offset == DEVICE_FEATURES_SEL_OFFSET {
        s.device_features_sel as u64
    } else if offset == DRIVER_FEATURES_OFFSET {
        s.driver_features as u64
    } else if offset == DRIVER_FEATURES_SEL_OFFSET {
        s.driver_features_sel as u64
    } else if offset == GUEST_PAGE_SIZE_OFFSET {
        s.page_size as u64
    } else if offset == QUEUE_NUM_MAX_OFFSET {
        QUEUE_SIZE as u64
    } else if offset == QUEUE_SEL_OFFSET {
        s.queue_sel as u64
    } else if offset == QUEUE_NUM_OFFSET {
        s.queue_num as u64
    } else if offset == QUEUE_READY_OFFSET {
        if s.queue_ready { 1 } else { 0 }
    } else if offset == INTERRUPT_STATUS_OFFSET {
        s.interrupt_status as u64
    } else if offset == STATUS_OFFSET {
        s.status as u64
    } else if offset == 0x108 {
        MAX_SCANOUTS as u64
    } else {
        0
    }
}

/// State after a register write other than a control-queue notification.
pub open spec fn write_reg_spec(s: GpuView, offset: u64, val: u64) -> GpuView {
    let v = val as u32;
    if offset == DEVICE_FEATURES_SEL_OFFSET {
        GpuView { device_features_sel: v, ..s }
    } else if offset == DRIVER_FEATURES_OFFSET {
        GpuView { driver_features: v, ..s }
    } else if offset == DRIVER_FEATURES_SEL_OFFSET {
        GpuView { driver_features_sel: v, ..s }
    } else if offset == QUEUE_SEL_OFFSET {
        GpuView { queue_sel: v, ..s }
    } else if offset == QUEUE_NUM_OFFSET {
        GpuView { queue_num: v, ..s }
    } else if offset == GUEST_PAGE_SIZE_OFFSET {
        GpuView { page_size: v, ..s }
    } else if offset == QUEUE_PFN_OFFSET {
        if v != 0 {
            let (desc, avail, used) = legacy_layout(s.page_size, s.queue_num, v);
            GpuView { queue_desc: desc, queue_avail: avail, queue_used: used, queue_ready: true, ..s }
        } else {
            s
        }
    } else if offset == QUEUE_READY_OFFSET {
        GpuView { queue_ready: v != 0, ..s }
    } else if offset == INTERRUPT_ACK_OFFSET {
        GpuView { interrupt_status: s.interrupt_status & !v, ..s }
    } else if offset == STATUS_OFFSET {
        if v == 0 {
            GpuView { status: 0, queue_ready: false, interrupt_status: 0, last_avail_idx: 0, ..s }
        } else {
            GpuView { status: v, ..s }
        }
    } else if offset == QUEUE_DESC_LOW_OFFSET {
        GpuView { queue_desc: (s.queue_desc & 0xffff_ffff_0000_0000) | (v as u64), ..s }
    } else if offset == QUEUE_DESC_HIGH_OFFSET {
        GpuView { queue_desc: (s.queue_desc & 0x0000_0000_ffff_ffff) | ((v as u64) << 32u64), ..s }
    } else if offset == QUEUE_DRIVER_LOW_OFFSET {
        GpuView { queue_avail: (s.queue_avail & 0xffff_ffff_0000_0000) | (v as u64), ..s }
    } else if offset == QUEUE_DRIVER_HIGH_OFFSET {
        GpuView { queue_avail: (s.queue_avail & 0x0000_0000_ffff_ffff) | ((v as u64) << 32u64), ..s }
    } else if offset == QUEUE_DEVICE_LOW_OFFSET {
        GpuView { queue_used: (s.queue_used & 0xffff_ffff_0000_0000) | (v as u64), ..s }
    } else if offset == QUEUE_DEVICE_HIGH_OFFSET {
        GpuView { queue_used: (s.queue_used & 0x0000_0000_ffff_ffff) | ((v as u64) << 32u64), ..s }
    } else {
        s
    }
}

/// VirtIO GPU device.
pub struct VirtioGpu {
    driver_features: u32,
    driver_features_sel: u32,
    device_features_sel: u32,
    page_size: u32,
    queue_sel: u32,
    queue_num: u32,
    queue_desc: u64,
    queue_avail: u64,
    queue_used: u64,
    queue_ready: bool,
    interrupt_status: u32,
    status: u32,
    last_avail_idx: u16,
    resources: HashMap<u32, Resource2D>,
    scanout: Option<Scanout>,
    display_width: u32,
    display_height: u32,
    pending_frame: Option<Vec<u8>>,
    frame_dirty: bool,
}

impl View for VirtioGpu {
    type V = GpuView;

    closed spec fn view(&self) -> GpuView {
        GpuView {
            driver_features: self.driver_features,
            driver_features_sel: self.driver_features_sel,
            device_features_sel: self.device_features_sel,
            page_size: self.page_size,
            queue_sel: self.queue_sel,
            queue_num: self.queue_num,
            queue_desc: self.queue_desc,
            queue_avail: self.queue_avail,
            queue_used: self.queue_used,
            queue_ready: self.queue_ready,
            interrupt_status: self.interrupt_status,
            status: self.status,
            last_avail_idx: self.last_avail_idx,
            resources: resource_views(self.resources@),
            scanout: self.scanout,
            display_width: self.display_width,
            display_height: self.display_height,
            pending_frame: match self.pending_frame {
                Some(f) => Some(f@),
                None => None,
            },
            frame_dirty: self.frame_dirty,
        }
    }
}

/// State of a reset device with a `width` x `height` display.
pub open spec fn reset_view(width: u32, height: u32) -> GpuView {
    GpuView {
        driver_features: 0,
        driver_features_sel: 0,
        device_features_sel: 0,
        page_size: 4096,
        queue_sel: 0,
        queue_num: 0,
        queue_desc: 0,
        queue_avail: 0,
        queue_used: 0,
        queue_ready: false,
        interrupt_status: 0,
        status: 0,
        last_avail_idx: 0,
        resources: Map::empty(),
        scanout: None,
        display_width: width,
        display_height: height,
        pending_frame: None,
        frame_dirty: false,
    }
}

/// A 4- or 8-byte store.
fn store_op(dram: &mut Dram, o: u64, v: u64, w: u64) -> (r: Result<(), MemoryError>)
    requires
        w == 4 || w == 8,
    ensures
        match store(old(dram)@, o, v, w as int) {
            Ok(d1) => r is Ok && final(dram)@ == d1,
            Err(e) => r == Err::<(), MemoryError>(e) && final(dram)@ == old(dram)@,
        },
{
    if w == 8 {
        dram.store_64(o, v)
    } else {
        dram.store_32(o, v)
    }
}

/// Run stores `(offset, value, width)` in order, stopping at the first failure.
fn run_stores(dram: &mut Dram, ops: &Vec<(u64, u64, u64)>) -> (r: Result<(), MemoryError>)
    requires
        forall|k: int| 0 <= k < ops@.len() ==> (#[trigger] ops@[k]).2 == 4 || ops@[k].2 == 8,
    ensures
        stores_hold(r, final(dram)@, store_ops(old(dram)@, ops@)),
{
    let mut k: usize = 0;
    proof {
        assert(ops@.skip(0) =~= ops@);
    }
    while k < ops.len()
        invariant
            k <= ops@.len(),
            forall|j: int| 0 <= j < ops@.len() ==> (#[trigger] ops@[j]).2 == 4 || ops@[j].2 == 8,
            store_ops(dram@, ops@.skip(k as int)) == store_ops(old(dram)@, ops@),
        decreases ops@.len() - k,
    {
        let (o, v, w) = ops[k];
        proof {
            lemma_store_ops_step(dram@, ops@, k as int);
        }
        store_op(dram, o, v, w)?;
        k = k + 1;
    }
    proof {
        assert(ops@.skip(k as int) =~= Seq::<(u64, u64, u64)>::empty());
    }
    Ok(())
}

impl VirtioGpu {
    /// A reset device with the default 800x600 display.
    pub fn new() -> (r: Self)
        ensures
            r@ == reset_view(DEFAULT_WIDTH, DEFAULT_HEIGHT),
    {
        Self::with_size(DEFAULT_WIDTH, DEFAULT_HEIGHT)
    }

    /// A reset device with a `width` x `height` display.
    pub fn with_size(width: u32, height: u32) -> (r: Self)
        ensures
            r@ == reset_view(width, height),
    {
        let r = Self {
            driver_features: 0,
            driver_features_sel: 0,
            device_features_sel: 0,
            page_size: 4096,
            queue_sel: 0,
            queue_num: 0,
            queue_desc: 0,
            queue_avail: 0,
            queue_used: 0,
            queue_ready: false,
            interrupt_status: 0,
            status: 0,
            last_avail_idx: 0,
            resources: HashMap::new(),
            scanout: None,
            display_width: width,
            display_height: height,
            pending_frame: None,
            frame_dirty: false,
        };
        proof {
            assert(resource_views(r.resources@) =~= Map::empty());
        }
        r
    }

    /// Whether a flushed frame waits to be taken.
    pub fn has_pending_frame(&self) -> (r: bool)
        ensures
            r == self@.frame_dirty,
    {
        self.frame_dirty
    }

    /// The waiting frame as (width, height, RGBA pixels), if any; the device
    /// then has none waiting.
    pub fn take_pending_frame(&mut self) -> (r: Option<(u32, u32, Vec<u8>)>)
        ensures
            match (old(self)@.frame_dirty, old(self)@.pending_frame) {
                (true, Some(f)) => r matches Some((w, h, px)) && w == old(self)@.display_width
                    && h == old(self)@.display_height && px@ == f,
                _ => r is None,
            },
            final(self)@ == (GpuView {
                frame_dirty: false,
                pending_frame: if old(self)@.frame_dirty { None } else { old(self)@.pending_frame },
                ..old(self)@
            }),
    {
        if self.frame_dirty {
            self.frame_dirty = false;
            let mut frame: Option<Vec<u8>> = None;
            std::mem::swap(&mut frame, &mut self.pending_frame);
            match frame {
                Some(f) => Some((self.display_width, self.display_height, f)),
                None => None,
            }
        } else {
            None
        }
    }

    /// Display dimensions (width, height).
    pub fn display_size(&self) -> (r: (u32, u32))
        ensures
            r == (self@.display_width, self@.display_height),
    {
        (self.display_width, self.display_height)
    }

    /// The 24-byte response header at guest address `addr`.
    fn write_response_header(dram: &mut Dram, addr: u64, resp_type: u32) -> (r: Result<(), MemoryError>)
        ensures
            match phys(addr) {
                Err(e) => r == Err::<(), MemoryError>(e) && final(dram)@ == old(dram)@,
                Ok(off) => stores_hold(r, final(dram)@, store_ops(old(dram)@, header_ops(off, resp_type))),
            },
    {
        let off = phys_to_offset(addr)?;
        let ops: Vec<(u64, u64, u64)> = vec![(off, resp_type as u64, 4), (off + 4, 0, 4), (off + 8, 0, 8), (off + 16, 0, 4), (off + 20, 0, 4)];
        proof {
            assert(ops@ =~= header_ops(off, resp_type));
        }
        run_stores(dram, &ops)
    }

    /// The display-info response at guest address `addr`.
    fn cmd_get_display_info(dram: &mut Dram, addr: u64, width: u32, height: u32) -> (r: Result<(), MemoryError>)
        ensures
            match phys(addr) {
                Err(e) => r == Err::<(), MemoryError>(e) && final(dram)@ == old(dram)@,
                Ok(off) => stores_hold(r, final(dram)@, store_ops(old(dram)@, display_info_ops(off, width, height))),
            },
    {
        let off = phys_to_offset(addr)?;
        let mut ops: Vec<(u64, u64, u64)> = vec![
            (off, VIRTIO_GPU_RESP_OK_DISPLAY_INFO as u64, 4), (off + 4, 0, 4), (off + 8, 0, 8), (off + 16, 0, 4), (off + 20, 0, 4),
            (off + 24, 0, 4), (off + 28, 0, 4), (off + 32, width as u64, 4), (off + 36, height as u64, 4), (off + 40, 1, 4), (off + 44, 0, 4),
        ];
        let ghost first = ops@;
        let mut t: u64 = 0;
        while t < 90
            invariant
                t <= 90,
                off + 500 <= u64::MAX,
                ops@.len() == 11 + t,
                ops@.subrange(0, 11) == first,
                forall|k: int| 11 <= k < 11 + t ==> #[trigger] ops@[k] == (((off + 24 + (1 + (k - 11) / 6) * 24 + ((k - 11) % 6) * 4) as u64, 0u64, 4u64)),
            decreases 90 - t,
        {
            ops.push((off + 24 + (1 + t / 6) * 24 + (t % 6) * 4, 0, 4));
            proof {
                assert(ops@.subrange(0, 11) =~= first);
            }
            t = t + 1;
        }
        proof {
            let want = display_info_ops(off, width, height);
            assert(first =~= want.subrange(0, 11));
            assert(ops@ =~= want) by {
                assert forall|k: int| 0 <= k < 101 implies ops@[k] == want[k] by {
                    if k < 11 {
                        assert(ops@[k] == ops@.subrange(0, 11)[k]);
                    }
                }
            }
        }
        run_stores(dram, &ops)
    }

    /// Header fields of a command at DRAM offset `cmd`; the type is returned.
    fn read_header(dram: &Dram, cmd: u64) -> (r: Result<u32, MemoryError>)
        requires
            cmd + 64 <= u64::MAX,
        ensures
            r == header_reads(dram@, cmd),
    {
        let cmd_type = dram.load_32(cmd)?;
        let _flags = dram.load_32(cmd + 4)?;
        let _fence_id = dram.load_64(cmd + 8)?;
        let _ctx_id = dram.load_32(cmd + 16)?;
        let _padding = dram.load_32(cmd + 20)?;
        Ok(cmd_type)
    }

    fn cmd_resource_create_2d(&mut self, dram: &mut Dram, cmd: u64, resp_addr: u64) -> (r: Result<u32, MemoryError>)
        requires
            cmd + 64 <= u64::MAX,
        ensures
            outcome_holds(r, final(self)@, final(dram)@, respond_spec(old(self)@, old(dram)@, VIRTIO_GPU_CMD_RESOURCE_CREATE_2D, cmd, resp_addr)),
    {
        let resource_id = dram.load_32(cmd + 24)?;
        let format = dram.load_32(cmd + 28)?;
        let width = dram.load_32(cmd + 32)?;
        let height = dram.load_32(cmd + 36)?;
        let n = width.wrapping_mul(height).wrapping_mul(4);
        let pixels: Vec<u8> = vec![0u8; n as usize];
        let res = Resource2D { id: resource_id, width, height, format, backing_pages: Vec::new(), pixels };
        proof {
            assert(res@.pixels =~= Seq::new(pixel_len(width, height) as nat, |i: int| 0u8));
            lemma_views_insert(self.resources@, resource_id, res);
        }
        self.resources.insert(resource_id, res);
        Self::write_response_header(dram, resp_addr, VIRTIO_GPU_RESP_OK_NODATA)?;
        Ok(24)
    }

    /// Read `n` backing entries (address, length) from `base` into `out`,
    /// stopping at the first failing read.
    fn read_entries(dram: &Dram, base: u64, n: u32, out: &mut Vec<(u64, u32)>) -> (r: Result<(), MemoryError>)
        ensures
            final(out)@ == gather_entries(dram@, base, n as nat).0,
            r == match gather_entries(dram@, base, n as nat).1 {
                Some(e) => Err::<(), MemoryError>(e),
                None => Ok(()),
            },
    {
        out.clear();
        let mut i: u32 = 0;
        while i < n
            invariant
                i <= n,
                gather_entries(dram@, base, i as nat) == (out@, None::<MemoryError>),
            decreases n - i,
        {
            let at = base.wrapping_add((i as u64) * 16);
            let addr = match dram.load_64(at) {
                Ok(a) => a,
                Err(e) => {
                    proof {
                        lemma_entries_stop(dram@, base, (i + 1) as nat, n as nat);
                    }
                    return Err(e);
                },
            };
            let len = match dram.load_32(at.wrapping_add(8)) {
                Ok(l) => l,
                Err(e) => {
                    proof {
                        lemma_entries_stop(dram@, base, (i + 1) as nat, n as nat);
                    }
                    return Err(e);
                },
            };
            out.push((addr, len));
            i = i + 1;
        }
        Ok(())
    }

    fn cmd_resource_attach_backing(&mut self, dram: &mut Dram, cmd: u64, resp_addr: u64) -> (r: Result<u32, MemoryError>)
        requires
            cmd + 64 <= u64::MAX,
        ensures
            outcome_holds(r, final(self)@, final(dram)@, respond_spec(old(self)@, old(dram)@, VIRTIO_GPU_CMD_RESOURCE_ATTACH_BACKING, cmd, resp_addr)),
    {
        let resource_id = dram.load_32(cmd + 24)?;
        let nr_entries = dram.load_32(cmd + 28)?;
        let ghost m0 = self.resources@;
        match self.resources.remove(&resource_id) {
            None => {
                proof {
                    assert(self.resources@ =~= m0);
                }
            },
            Some(mut res) => {
                let read = Self::read_entries(dram, cmd + 32, nr_entries, &mut res.backing_pages);
                proof {
                    lemma_views_insert(self.resources@, resource_id, res);
                    lemma_views_remove(m0, resource_id);
                    assert(resource_views(m0).remove(resource_id).insert(resource_id, res@)
                        =~= resource_views(m0).insert(resource_id, res@));
                }
                self.resources.insert(resource_id, res);
                read?;
            },
        }
        Self::write_response_header(dram, resp_addr, VIRTIO_GPU_RESP_OK_NODATA)?;
        Ok(24)
    }

    /// Copy the backing pages in order into `pixels`, each clipped to the
    /// room left, stopping at the first failure.
    fn blit_pages(dram: &Dram, pages: &Vec<(u64, u32)>, pixels: &mut Vec<u8>) -> (r: Result<(), MemoryError>)
        ensures
            final(pixels)@ == blit(dram@, pages@, 0, old(pixels)@, 0).0,
            r == match blit(dram@, pages@, 0, old(pixels)@, 0).1 {
                Some(e) => Err::<(), MemoryError>(e),
                None => Ok(()),
            },
    {
        let ghost total = blit(dram@, pages@, 0, old(pixels)@, 0);
        let mut dst: usize = 0;
        let mut i: usize = 0;
        while i < pages.len()
            invariant
                i <= pages@.len(),
                dst <= pixels@.len(),
                total == blit(dram@, pages@, 0, old(pixels)@, 0),
                blit(dram@, pages@, i as nat, pixels@, dst as nat) == total,
            decreases pages@.len() - i,
        {
            let (addr, plen) = pages[i];
            let off = phys_to_offset(addr)?;
            let room = pixels.len() - dst;
            let len: usize = if (plen as usize) < room { plen as usize } else { room };
            if len > 0 {
                let data = dram.read_range(off as usize, len)?;
                let ghost p0 = pixels@;
                let mut j: usize = 0;
                while j < len
                    invariant
                        j <= len,
                        dst + len <= p0.len(),
                        dst + len <= usize::MAX,
                        data@.len() == len,
                        pixels@ == write_slice(p0, dst as int, data@.subrange(0, j as int)),
                    decreases len - j,
                {
                    pixels.set(dst + j, data[j]);
                    proof {
                        assert(pixels@ =~= write_slice(p0, dst as int, data@.subrange(0, j + 1)));
                    }
                    j = j + 1;
                }
                proof {
                    assert(data@.subrange(0, len as int) =~= data@);
                }
                dst = dst + len;
            }
            i = i + 1;
        }
        Ok(())
    }

    fn cmd_transfer_to_host_2d(&mut self, dram: &mut Dram, cmd: u64, resp_addr: u64) -> (r: Result<u32, MemoryError>)
        requires
            cmd + 64 <= u64::MAX,
        ensures
            outcome_holds(r, final(self)@, final(dram)@, respond_spec(old(self)@, old(dram)@, VIRTIO_GPU_CMD_TRANSFER_TO_HOST_2D, cmd, resp_addr)),
    {
        let _x = dram.load_32(cmd + 24)?;
        let _y = dram.load_32(cmd + 28)?;
        let _width = dram.load_32(cmd + 32)?;
        let _height = dram.load_32(cmd + 36)?;
        let _offset = dram.load_64(cmd + 40)?;
        let resource_id = dram.load_32(cmd + 48)?;
        let _padding = dram.load_32(cmd + 52)?;
        let ghost m0 = self.resources@;
        match self.resources.remove(&resource_id) {
            None => {
                proof {
                    assert(self.resources@ =~= m0);
                }
            },
            Some(mut res) => {
                let copied = Self::blit_pages(dram, &res.backing_pages, &mut res.pixels);
                proof {
                    lemma_views_insert(self.resources@, resource_id, res);
                    lemma_views_remove(m0, resource_id);
                    assert(resource_views(m0).remove(resource_id).insert(resource_id, res@)
                        =~= resource_views(m0).insert(resource_id, res@));
                }
                self.resources.insert(resource_id, res);
                copied?;
            },
        }
        Self::write_response_header(dram, resp_addr, VIRTIO_GPU_RESP_OK_NODATA)?;
        Ok(24)
    }

    fn cmd_set_scanout(&mut self, dram: &mut Dram, cmd: u64, resp_addr: u64) -> (r: Result<u32, MemoryError>)
        requires
            cmd + 64 <= u64::MAX,
        ensures
            outcome_holds(r, final(self)@, final(dram)@, respond_spec(old(self)@, old(dram)@, VIRTIO_GPU_CMD_SET_SCANOUT, cmd, resp_addr)),
    {
        let x = dram.load_32(cmd + 24)?;
        let y = dram.load_32(cmd + 28)?;
        let width = dram.load_32(cmd + 32)?;
        let height = dram.load_32(cmd + 36)?;
        let scanout_id = dram.load_32(cmd + 40)?;
        let resource_id = dram.load_32(cmd + 44)?;
        if (scanout_id as usize) < MAX_SCANOUTS {
            if resource_id == 0 {
                self.scanout = None;
            } else {
                self.scanout = Some(Scanout { resource_id, x, y, width, height });
            }
        }
        Self::write_response_header(dram, resp_addr, VIRTIO_GPU_RESP_OK_NODATA)?;
        Ok(24)
    }

    fn cmd_resource_flush(&mut self, dram: &mut Dram, cmd: u64, resp_addr: u64) -> (r: Result<u32, MemoryError>)
        requires
            cmd + 64 <= u64::MAX,
        ensures
            outcome_holds(r, final(self)@, final(dram)@, respond_spec(old(self)@, old(dram)@, VIRTIO_GPU_CMD_RESOURCE_FLUSH, cmd, resp_addr)),
    {
        let _x = dram.load_32(cmd + 24)?;
        let _y = dram.load_32(cmd + 28)?;
        let _width = dram.load_32(cmd + 32)?;
        let _height = dram.load_32(cmd + 36)?;
        let resource_id = dram.load_32(cmd + 40)?;
        if let Some(sc) = self.scanout {
            if sc.resource_id == resource_id {
                let frame = match self.resources.get(&resource_id) {
                    Some(res) => {
                        let px = res.pixels.clone();
                        proof {
                            assert(px@ =~= res@.pixels);
                        }
                        Some(px)
                    },
                    None => None,
                };
                if let Some(px) = frame {
                    self.pending_frame = Some(px);
                    self.frame_dirty = true;
                }
            }
        }
        Self::write_response_header(dram, resp_addr, VIRTIO_GPU_RESP_OK_NODATA)?;
        Ok(24)
    }

    fn cmd_resource_unref(&mut self, dram: &mut Dram, cmd: u64, resp_addr: u64) -> (r: Result<u32, MemoryError>)
        requires
            cmd + 64 <= u64::MAX,
        ensures
            outcome_holds(r, final(self)@, final(dram)@, respond_spec(old(self)@, old(dram)@, VIRTIO_GPU_CMD_RESOURCE_UNREF, cmd, resp_addr)),
    {
        let resource_id = dram.load_32(cmd + 24)?;
        proof {
            lemma_views_remove(self.resources@, resource_id);
        }
        self.resources.remove(&resource_id);
        Self::write_response_header(dram, resp_addr, VIRTIO_GPU_RESP_OK_NODATA)?;
        Ok(24)
    }

    fn cmd_resource_detach_backing(&mut self, dram: &mut Dram, cmd: u64, resp_addr: u64) -> (r: Result<u32, MemoryError>)
        requires
            cmd + 64 <= u64::MAX,
        ensures
            outcome_holds(r, final(self)@, final(dram)@, respond_spec(old(self)@, old(dram)@, VIRTIO_GPU_CMD_RESOURCE_DETACH_BACKING, cmd, resp_addr)),
    {
        let resource_id = dram.load_32(cmd + 24)?;
        let ghost m0 = self.resources@;
        match self.resources.remove(&resource_id) {
            None => {
                proof {
                    assert(self.resources@ =~= m0);
                }
            },
            Some(mut res) => {
                res.backing_pages.clear();
                proof {
                    lemma_views_insert(self.resources@, resource_id, res);
                    lemma_views_remove(m0, resource_id);
                    assert(resource_views(m0).remove(resource_id).insert(resource_id, res@)
                        =~= resource_views(m0).insert(resource_id, res@));
                }
                self.resources.insert(resource_id, res);
            },
        }
        Self::write_response_header(dram, resp_addr, VIRTIO_GPU_RESP_OK_NODATA)?;
        Ok(24)
    }

    /// Carry out a command of type `cmd_type` at DRAM offset `cmd`, answering
    /// at guest address `resp_addr`; unknown types get an error response.
    fn dispatch(&mut self, dram: &mut Dram, cmd_type: u32, cmd: u64, resp_addr: u64) -> (r: Result<u32, MemoryError>)
        requires
            cmd + 64 <= u64::MAX,
        ensures
            outcome_holds(r, final(self)@, final(dram)@, respond_spec(old(self)@, old(dram)@, cmd_type, cmd, resp_addr)),
    {
        if cmd_type == VIRTIO_GPU_CMD_GET_DISPLAY_INFO {
            Self::cmd_get_display_info(dram, resp_addr, self.display_width, self.display_height)?;
            Ok(24 + 384)
        } else if cmd_type == VIRTIO_GPU_CMD_RESOURCE_CREATE_2D {
            self.cmd_resource_create_2d(dram, cmd, resp_addr)
        } else if cmd_type == VIRTIO_GPU_CMD_RESOURCE_ATTACH_BACKING {
            self.cmd_resource_attach_backing(dram, cmd, resp_addr)
        } else if cmd_type == VIRTIO_GPU_CMD_SET_SCANOUT {
            self.cmd_set_scanout(dram, cmd, resp_addr)
        } else if cmd_type == VIRTIO_GPU_CMD_TRANSFER_TO_HOST_2D {
            self.cmd_transfer_to_host_2d(dram, cmd, resp_addr)
        } else if cmd_type == VIRTIO_GPU_CMD_RESOURCE_FLUSH {
            self.cmd_resource_flush(dram, cmd, resp_addr)
        } else if cmd_type == VIRTIO_GPU_CMD_RESOURCE_UNREF {
            self.cmd_resource_unref(dram, cmd, resp_addr)
        } else if cmd_type == VIRTIO_GPU_CMD_RESOURCE_DETACH_BACKING {
            self.cmd_resource_detach_backing(dram, cmd, resp_addr)
        } else {
            Self::write_response_header(dram, resp_addr, VIRTIO_GPU_RESP_ERR_UNSPEC)?;
            Ok(24)
        }
    }

    /// Process the command chain whose head descriptor is `desc_idx`;
    /// returns the bytes reported for the used ring.
    fn process_command(&mut self, dram: &mut Dram, desc_idx: u16) -> (r: Result<u32, MemoryError>)
        ensures
            outcome_holds(r, final(self)@, final(dram)@, command_spec(old(self)@, old(dram)@, desc_idx)),
    {
        proof {
            reveal(command_spec);
        }
        let (cmd_addr, cmd_len, flags, next_idx) = read_desc(dram, self.queue_desc, desc_idx)?;
        if cmd_len < 24 {
            return Ok(0);
        }
        let cmd = phys_to_offset(cmd_addr)?;
        let cmd_type = Self::read_header(dram, cmd)?;
        if (flags as u64) & VRING_DESC_F_NEXT == 0 {
            return Ok(0);
        }
        let resp_desc = phys_to_offset(self.queue_desc.wrapping_add((next_idx as u64) * 16))?;
        let resp_addr = dram.load_64(resp_desc)?;
        let _resp_len = dram.load_32(resp_desc + 8)?;
        self.dispatch(dram, cmd_type, cmd, resp_addr)
    }

    fn ring_size(&self) -> (r: u32)
        ensures
            r == gpu_ring_size(self@),
            r > 0,
    {
        if self.queue_num > 0 { self.queue_num } else { QUEUE_SIZE }
    }

    /// Serve the next available command and record it in the used ring.
    fn serve_one(&mut self, dram: &mut Dram) -> (r: Result<(), MemoryError>)
        ensures
            match serve_spec(old(self)@, old(dram)@) {
                Ok((s1, d1)) => r is Ok && final(self)@ == s1 && final(dram)@ == d1,
                Err((e, s1, d1)) => r == Err::<(), MemoryError>(e) && final(self)@ == s1 && final(dram)@ == d1,
            },
    {
        proof {
            reveal(serve_spec);
        }
        let qsz = self.ring_size();
        let ring_slot = (self.last_avail_idx as u32 % qsz) as u64;
        let head = load16_at_phys(dram, self.queue_avail.wrapping_add(4).wrapping_add(ring_slot * 2))?;
        let bytes_written = self.process_command(dram, head)?;
        push_used_elem(dram, self.queue_used, qsz, head, bytes_written)?;
        self.last_avail_idx = self.last_avail_idx.wrapping_add(1);
        Ok(())
    }

    /// Serve every available command of the control queue.
    fn process_queue(&mut self, dram: &mut Dram) -> (r: Result<(), MemoryError>)
        ensures
            match process_spec(old(self)@, old(dram)@) {
                Ok((s1, d1)) => r is Ok && final(self)@ == s1 && final(dram)@ == d1,
                Err((e, s1, d1)) => r == Err::<(), MemoryError>(e) && final(self)@ == s1 && final(dram)@ == d1,
            },
    {
        if self.queue_avail == 0 || self.queue_desc == 0 {
            return Ok(());
        }
        let avail_idx = load16_at_phys(dram, self.queue_avail.wrapping_add(2))?;
        let ghost k = pending_count(self.last_avail_idx, avail_idx);
        let ghost total = drain_spec(self@, dram@, k);
        let mut processed_any = false;
        while self.last_avail_idx != avail_idx
            invariant
                drain_spec(self@, dram@, pending_count(self.last_avail_idx, avail_idx)) == total,
                total == drain_spec(old(self)@, old(dram)@, k),
                old(self)@.queue_avail != 0 && old(self)@.queue_desc != 0,
                load16_phys(old(dram)@, wadd(old(self)@.queue_avail, 2)) == Ok::<u16, MemoryError>(avail_idx),
                processed_any == (pending_count(self.last_avail_idx, avail_idx) < k),
                pending_count(self.last_avail_idx, avail_idx) <= k,
                k == pending_count(old(self)@.last_avail_idx, avail_idx),
            decreases pending_count(self.last_avail_idx, avail_idx),
        {
            proof {
                lemma_pending_step(self.last_avail_idx, avail_idx);
                lemma_serve_advances(self@, dram@);
            }
            self.serve_one(dram)?;
            processed_any = true;
        }
        if processed_any {
            self.interrupt_status = self.interrupt_status | 1;
        }
        Ok(())
    }
}

/// A command leaves the queue registers alone.
proof fn lemma_command_keeps_queue(s: GpuView, d: DramView, idx: u16)
    ensures
        command_spec(s, d, idx) matches Ok((s1, _, _)) ==> s1.last_avail_idx == s.last_avail_idx
            && s1.queue_avail == s.queue_avail && s1.queue_used == s.queue_used && s1.queue_num == s.queue_num,
{
    reveal(command_spec);
}

proof fn lemma_serve_advances(s: GpuView, d: DramView)
    ensures
        serve_spec(s, d) matches Ok((s1, _)) ==> s1.last_avail_idx == wadd16(s.last_avail_idx, 1),
{
    reveal(serve_spec);
    lemma_command_keeps_queue(s, d, 0);
    let qsz = gpu_ring_size(s);
    let slot = (s.last_avail_idx as u32 % qsz) as u64;
    if let Ok(head) = load16_phys(d, wadd(wadd(s.queue_avail, 4), (slot * 2) as u64)) {
        lemma_command_keeps_queue(s, d, head);
    }
}

/// A flush of the resource that the scanout shows makes that resource's
/// pixels the pending frame; a flush of any other resource leaves the
/// pending frame as it was.
pub proof fn lemma_flush_presents(s: GpuView, d: DramView, cmd: u64, resp_addr: u64)
    requires
        cmd + 64 <= u64::MAX,
    ensures
        respond_spec(s, d, VIRTIO_GPU_CMD_RESOURCE_FLUSH, cmd, resp_addr) matches Ok((s1, _, _)) ==> ({
            let rid = word32(d, (cmd + 40) as u64);
            if s.scanout matches Some(sc) && sc.resource_id == rid && s.resources.contains_key(rid) {
                s1.frame_dirty && s1.pending_frame == Some(s.resources[rid].pixels)
            } else {
                s1 == s
            }
        }),
{
}

impl Default for VirtioGpu {
    fn default() -> (r: Self)
        ensures
            r@ == reset_view(DEFAULT_WIDTH, DEFAULT_HEIGHT),
    {
        Self::new()
    }
}

impl VirtioDevice for VirtioGpu {
    type Model = GpuView;

    open spec fn model(&self) -> GpuView {
        self@
    }

    open spec fn read_result(m: GpuView, offset: u64) -> Result<u64, MemoryError> {
        Ok(read_spec(m, offset))
    }

    open spec fn write_result(m: GpuView, offset: u64, val: u64, d: DramView) -> (Result<(), MemoryError>, GpuView, DramView) {
        if offset == QUEUE_NOTIFY_OFFSET && val as u32 == 0 {
            notify_result(process_spec(m, d))
        } else {
            (Ok(()), write_reg_spec(m, offset, val), d)
        }
    }

    open spec fn poll_result(m: GpuView, d: DramView) -> (Result<(), MemoryError>, GpuView, DramView) {
        (Ok(()), m, d)
    }

    open spec fn interrupt_line(m: GpuView) -> bool {
        m.interrupt_status != 0
    }

    fn read(&self, offset: u64) -> (r: Result<u64, MemoryError>)
        ensures
            r == Ok::<u64, MemoryError>(read_spec(self@, offset)),
    {
        let val = if offset == MAGIC_VALUE_OFFSET {
            MAGIC_VALUE
        } else if offset == VERSION_OFFSET {
            VERSION
        } else if offset == DEVICE_ID_OFFSET {
            VIRTIO_GPU_DEVICE_ID as u64
        } else if offset == VENDOR_ID_OFFSET {
            VENDOR_ID
        } else if offset == DEVICE_FEATURES_OFFSET {
            0
        } else if offset == DEVICE_FEATURES_SEL_OFFSET {
            self.device_features_sel as u64
        } else if offset == DRIVER_FEATURES_OFFSET {
            self.driver_features as u64
        } else if offset == DRIVER_FEATURES_SEL_OFFSET {
            self.driver_features_sel as u64
        } else if offset == GUEST_PAGE_SIZE_OFFSET {
            self.page_size as u64
        } else if offset == QUEUE_NUM_MAX_OFFSET {
            QUEUE_SIZE as u64
        } else if offset == QUEUE_SEL_OFFSET {
            self.queue_sel as u64
        } else if offset == QUEUE_NUM_OFFSET {
            self.queue_num as u64
        } else if offset == QUEUE_READY_OFFSET {
            if self.queue_ready { 1 } else { 0 }
        } else if offset == INTERRUPT_STATUS_OFFSET {
            self.interrupt_status as u64
        } else if offset == STATUS_OFFSET {
            self.status as u64
        } else if offset == CONFIG_GENERATION_OFFSET {
            0
        } else if offset == 0x108 {
            MAX_SCANOUTS as u64
        } else {
            0
        };
        Ok(val)
    }

    fn write(&mut self, offset: u64, val: u64, dram: &mut Dram) -> (r: Result<(), MemoryError>)
        ensures
            offset == QUEUE_NOTIFY_OFFSET && val as u32 == 0 ==> match process_spec(old(self)@, old(dram)@) {
                Ok((s1, d1)) => r is Ok && final(self)@ == s1 && final(dram)@ == d1,
                Err((e, s1, d1)) => r == Err::<(), MemoryError>(e) && final(self)@ == s1 && final(dram)@ == d1,
            },
            !(offset == QUEUE_NOTIFY_OFFSET && val as u32 == 0) ==> r is Ok && final(self)@ == write_reg_spec(old(self)@, offset, val)
                && final(dram)@ == old(dram)@,
    {
        let val32 = val as u32;
        if offset == DEVICE_FEATURES_SEL_OFFSET {
            self.device_features_sel = val32;
        } else if offset == DRIVER_FEATURES_OFFSET {
            self.driver_features = val32;
        } else if offset == DRIVER_FEATURES_SEL_OFFSET {
            self.driver_features_sel = val32;
        } else if offset == QUEUE_SEL_OFFSET {
            self.queue_sel = val32;
        } else if offset == QUEUE_NUM_OFFSET {
            self.queue_num = val32;
        } else if offset == GUEST_PAGE_SIZE_OFFSET {
            self.page_size = val32;
        } else if offset == QUEUE_PFN_OFFSET {
            if val32 != 0 {
                let (desc, avail, used) = queue_layout(self.page_size, self.queue_num, val32);
                self.queue_desc = desc;
                self.queue_avail = avail;
                self.queue_used = used;
                self.queue_ready = true;
            }
        } else if offset == QUEUE_READY_OFFSET {
            self.queue_ready = val32 != 0;
        } else if offset == QUEUE_NOTIFY_OFFSET {
            if val32 == 0 {
                let r = self.process_queue(dram);
                match r {
                    Ok(_) => return Ok(()),
                    Err(e) => return Err(e),
                }
            }
        } else if offset == INTERRUPT_ACK_OFFSET {
            self.interrupt_status = self.interrupt_status & !val32;
        } else if offset == STATUS_OFFSET {
            if val32 == 0 {
                self.status = 0;
                self.queue_ready = false;
                self.interrupt_status = 0;
                self.last_avail_idx = 0;
            } else {
                self.status = val32;
            }
        } else if offset == QUEUE_DESC_LOW_OFFSET {
            self.queue_desc = (self.queue_desc & 0xffff_ffff_0000_0000) | (val32 as u64);
        } else if offset == QUEUE_DESC_HIGH_OFFSET {
            self.queue_desc = (self.queue_desc & 0x0000_0000_ffff_ffff) | ((val32 as u64) << 32u64);
        } else if offset == QUEUE_DRIVER_LOW_OFFSET {
            self.queue_avail = (self.queue_avail & 0xffff_ffff_0000_0000) | (val32 as u64);
        } else if offset == QUEUE_DRIVER_HIGH_OFFSET {
            self.queue_avail = (self.queue_avail & 0x0000_0000_ffff_ffff) | ((val32 as u64) << 32u64);
        } else if offset == QUEUE_DEVICE_LOW_OFFSET {
            self.queue_used = (self.queue_used & 0xffff_ffff_0000_0000) | (val32 as u64);
        } else if offset == QUEUE_DEVICE_HIGH_OFFSET {
            self.queue_used = (self.queue_used & 0x0000_0000_ffff_ffff) | ((val32 as u64) << 32u64);
        }
        Ok(())
    }

    fn is_interrupting(&self) -> (r: bool)
        ensures
            r == (self@.interrupt_status != 0),
    {
        self.interrupt_status != 0
    }

    fn device_id(&self) -> (r: u32)
        ensures
            r == VIRTIO_GPU_DEVICE_ID,
    {
        VIRTIO_GPU_DEVICE_ID
    }

    fn poll(&mut self, _dram: &mut Dram) -> (r: Result<(), MemoryError>) {
        Ok(())
    }
}

/// Once an entry read fails, later counts gather the same entries and error.
proof fn lemma_entries_stop(d: DramView, base: u64, m: nat, n: nat)
    requires
        m <= n,
        gather_entries(d, base, m).1 is Some,
    ensures
        gather_entries(d, base, n) == gather_entries(d, base, m),
    decreases n - m,
{
    if n > m {
        lemma_entries_stop(d, base, m, (n - 1) as nat);
    }
}

} // verus!
