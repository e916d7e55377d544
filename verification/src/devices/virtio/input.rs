//! VirtIO input device (device ID 18): a keyboard whose host key events are
//! delivered into the guest's event queue.

use vstd::prelude::*;
use std::collections::VecDeque;
use crate::dram::{Dram, DramView, MemoryError, DRAM_BASE};
use super::device::{
    VirtioDevice, notify_result, CONFIG_GENERATION_OFFSET, DEVICE_FEATURES_OFFSET, DEVICE_FEATURES_SEL_OFFSET, DEVICE_ID_OFFSET,
    DRIVER_FEATURES_OFFSET, DRIVER_FEATURES_SEL_OFFSET, GUEST_PAGE_SIZE_OFFSET, INTERRUPT_ACK_OFFSET,
    INTERRUPT_STATUS_OFFSET, MAGIC_VALUE, MAGIC_VALUE_OFFSET, QUEUE_DESC_HIGH_OFFSET, QUEUE_DESC_LOW_OFFSET,
    QUEUE_DEVICE_HIGH_OFFSET, QUEUE_DEVICE_LOW_OFFSET, QUEUE_DRIVER_HIGH_OFFSET, QUEUE_DRIVER_LOW_OFFSET,
    QUEUE_NOTIFY_OFFSET, QUEUE_NUM_MAX_OFFSET, QUEUE_NUM_OFFSET, QUEUE_PFN_OFFSET, QUEUE_READY_OFFSET,
    QUEUE_SEL_OFFSET, QUEUE_SIZE, STATUS_OFFSET, VENDOR_ID, VENDOR_ID_OFFSET, VERSION, VERSION_OFFSET,
    legacy_layout, queue_layout,
    VRING_DESC_F_WRITE, wadd, wadd16, phys, load16, load32, load64, load16_phys, store, pending_count,
    lemma_pending_step, used_ring_spec, phys_to_offset, load16_at_phys, push_used_elem,
};

verus! {

/// VirtIO input device ID.
pub const VIRTIO_INPUT_DEVICE_ID: u32 = 18;

pub const EV_SYN: u16 = 0x00;
pub const EV_KEY: u16 = 0x01;
pub const EV_REL: u16 = 0x02;
pub const EV_ABS: u16 = 0x03;
pub const KEY_ESC: u16 = 1;
pub const KEY_1: u16 = 2;
pub const KEY_2: u16 = 3;
pub const KEY_3: u16 = 4;
pub const KEY_4: u16 = 5;
pub const KEY_5: u16 = 6;
pub const KEY_6: u16 = 7;
pub const KEY_7: u16 = 8;
pub const KEY_8: u16 = 9;
pub const KEY_9: u16 = 10;
pub const KEY_0: u16 = 11;
pub const KEY_MINUS: u16 = 12;
pub const KEY_EQUAL: u16 = 13;
pub const KEY_BACKSPACE: u16 = 14;
pub const KEY_TAB: u16 = 15;
pub const KEY_Q: u16 = 16;
pub const KEY_W: u16 = 17;
pub const KEY_E: u16 = 18;
pub const KEY_R: u16 = 19;
pub const KEY_T: u16 = 20;
pub const KEY_Y: u16 = 21;
pub const KEY_U: u16 = 22;
pub const KEY_I: u16 = 23;
pub const KEY_O: u16 = 24;
pub const KEY_P: u16 = 25;
pub const KEY_LEFTBRACE: u16 = 26;
pub const KEY_RIGHTBRACE: u16 = 27;
pub const KEY_ENTER: u16 = 28;
pub const KEY_LEFTCTRL: u16 = 29;
pub const KEY_A: u16 = 30;
pub const KEY_S: u16 = 31;
pub const KEY_D: u16 = 32;
pub const KEY_F: u16 = 33;
pub const KEY_G: u16 = 34;
pub const KEY_H: u16 = 35;
pub const KEY_J: u16 = 36;
pub const KEY_K: u16 = 37;
pub const KEY_L: u16 = 38;
pub const KEY_SEMICOLON: u16 = 39;
pub const KEY_APOSTROPHE: u16 = 40;
pub const KEY_GRAVE: u16 = 41;
pub const KEY_LEFTSHIFT: u16 = 42;
pub const KEY_BACKSLASH: u16 = 43;
pub const KEY_Z: u16 = 44;
pub const KEY_X: u16 = 45;
pub const KEY_C: u16 = 46;
pub const KEY_V: u16 = 47;
pub const KEY_B: u16 = 48;
pub const KEY_N: u16 = 49;
pub const KEY_M: u16 = 50;
pub const KEY_COMMA: u16 = 51;
pub const KEY_DOT: u16 = 52;
pub const KEY_SLASH: u16 = 53;
pub const KEY_RIGHTSHIFT: u16 = 54;
pub const KEY_LEFTALT: u16 = 56;
pub const KEY_SPACE: u16 = 57;
pub const KEY_CAPSLOCK: u16 = 58;
pub const KEY_F1: u16 = 59;
pub const KEY_F2: u16 = 60;
pub const KEY_F3: u16 = 61;
pub const KEY_F4: u16 = 62;
pub const KEY_F5: u16 = 63;
pub const KEY_F6: u16 = 64;
pub const KEY_F7: u16 = 65;
pub const KEY_F8: u16 = 66;
pub const KEY_F9: u16 = 67;
pub const KEY_F10: u16 = 68;
pub const KEY_F11: u16 = 87;
pub const KEY_F12: u16 = 88;
pub const KEY_UP: u16 = 103;
pub const KEY_LEFT: u16 = 105;
pub const KEY_RIGHT: u16 = 106;
pub const KEY_DOWN: u16 = 108;
pub const KEY_HOME: u16 = 102;
pub const KEY_END: u16 = 107;
pub const KEY_PAGEUP: u16 = 104;
pub const KEY_PAGEDOWN: u16 = 109;
pub const KEY_INSERT: u16 = 110;
pub const KEY_DELETE: u16 = 111;

/// Config select: device name.
pub const VIRTIO_INPUT_CFG_ID_NAME: u8 = 0x01;
/// Config select: serial number.
pub const VIRTIO_INPUT_CFG_ID_SERIAL: u8 = 0x02;
/// Config select: device IDs.
pub const VIRTIO_INPUT_CFG_ID_DEVIDS: u8 = 0x03;
/// Config select: supported event codes.
pub const VIRTIO_INPUT_CFG_EV_BITS: u8 = 0x11;

/// One input event (Linux `struct input_event` without the timestamp).
#[derive(Clone, Copy)]
pub struct InputEvent {
    pub event_type: u16,
    pub code: u16,
    pub value: i32,
}

/// Abstract device state. The per-queue fields hold queue 0 (events) and
/// queue 1 (status).
pub struct InputView {
    pub driver_features: u32,
    pub driver_features_sel: u32,
    pub device_features_sel: u32,
    pub page_size: u32,
    pub queue_sel: u32,
    pub queue_num: Seq<u32>,
    pub queue_desc: Seq<u64>,
    pub queue_avail: Seq<u64>,
    pub queue_used: Seq<u64>,
    pub queue_ready: Seq<bool>,
    pub interrupt_status: u32,
    pub status: u32,
    pub last_avail_idx: Seq<u16>,
    /// Events not yet delivered, oldest first.
    pub events: Seq<InputEvent>,
    pub cfg_select: u8,
    pub cfg_subsel: u8,
}

/// Every per-queue field has two entries.
pub open spec fn input_wf(s: InputView) -> bool {
    &&& s.queue_num.len() == 2
    &&& s.queue_desc.len() == 2
    &&& s.queue_avail.len() == 2
    &&& s.queue_used.len() == 2
    &&& s.queue_ready.len() == 2
    &&& s.last_avail_idx.len() == 2
}

/// Linux key code of a JavaScript key code.
pub open spec fn linux_key_of(js_code: u32) -> Option<u16> {
    match js_code {
        27 => Some(KEY_ESC),
        48 => Some(KEY_0),
        49 => Some(KEY_1),
        50 => Some(KEY_2),
        51 => Some(KEY_3),
        52 => Some(KEY_4),
        53 => Some(KEY_5),
        54 => Some(KEY_6),
        55 => Some(KEY_7),
        56 => Some(KEY_8),
        57 => Some(KEY_9),
        65 => Some(KEY_A),
        66 => Some(KEY_B),
        67 => Some(KEY_C),
        68 => Some(KEY_D),
        69 => Some(KEY_E),
        70 => Some(KEY_F),
        71 => Some(KEY_G),
        72 => Some(KEY_H),
        73 => Some(KEY_I),
        74 => Some(KEY_J),
        75 => Some(KEY_K),
        76 => Some(KEY_L),
        77 => Some(KEY_M),
        78 => Some(KEY_N),
        79 => Some(KEY_O),
        80 => Some(KEY_P),
        81 => Some(KEY_Q),
        82 => Some(KEY_R),
        83 => Some(KEY_S),
        84 => Some(KEY_T),
        85 => Some(KEY_U),
        86 => Some(KEY_V),
        87 => Some(KEY_W),
        88 => Some(KEY_X),
        89 => Some(KEY_Y),
        90 => Some(KEY_Z),
        8 => Some(KEY_BACKSPACE),
        9 => Some(KEY_TAB),
        13 => Some(KEY_ENTER),
        16 => Some(KEY_LEFTSHIFT),
        17 => Some(KEY_LEFTCTRL),
        18 => Some(KEY_LEFTALT),
        20 => Some(KEY_CAPSLOCK),
        32 => Some(KEY_SPACE),
        33 => Some(KEY_PAGEUP),
        34 => Some(KEY_PAGEDOWN),
        35 => Some(KEY_END),
        36 => Some(KEY_HOME),
        37 => Some(KEY_LEFT),
        38 => Some(KEY_UP),
        39 => Some(KEY_RIGHT),
        40 => Some(KEY_DOWN),
        45 => Some(KEY_INSERT),
        46 => Some(KEY_DELETE),
        112 => Some(KEY_F1),
        113 => Some(KEY_F2),
        114 => Some(KEY_F3),
        115 => Some(KEY_F4),
        116 => Some(KEY_F5),
        117 => Some(KEY_F6),
        118 => Some(KEY_F7),
        119 => Some(KEY_F8),
        120 => Some(KEY_F9),
        121 => Some(KEY_F10),
        122 => Some(KEY_F11),
        123 => Some(KEY_F12),
        186 => Some(KEY_SEMICOLON),
        187 => Some(KEY_EQUAL),
        188 => Some(KEY_COMMA),
        189 => Some(KEY_MINUS),
        190 => Some(KEY_DOT),
        191 => Some(KEY_SLASH),
        192 => Some(KEY_GRAVE),
        219 => Some(KEY_LEFTBRACE),
        220 => Some(KEY_BACKSLASH),
        221 => Some(KEY_RIGHTBRACE),
        222 => Some(KEY_APOSTROPHE),
        _ => None,
    }
}

/// Event ring size in use.
pub open spec fn event_ring_size(s: InputView) -> u32 {
    if s.queue_num[0] > 0 { s.queue_num[0] } else { QUEUE_SIZE }
}

/// Writes of one event into an 8-byte buffer at `o`: type, code, value.
pub open spec fn event_store(d: DramView, o: u64, ev: InputEvent) -> Result<DramView, (MemoryError, DramView)> {
    match store(d, o, ev.event_type as u64, 2) {
        Err(e) => Err((e, d)),
        Ok(d1) => match store(d1, (o + 2) as u64, ev.code as u64, 2) {
            Err(e) => Err((e, d1)),
            Ok(d2) => match store(d2, (o + 4) as u64, ev.value as u64, 4) {
                Err(e) => Err((e, d2)),
                Ok(d3) => Ok(d3),
            },
        },
    }
}

/// One available event buffer handled: a writable buffer of at least 8 bytes
/// receives the oldest event and is returned through the used ring; any
/// other buffer is skipped. The flag tells whether an event was delivered.
#[verifier::opaque]
pub open spec fn deliver_step(s: InputView, d: DramView) -> Result<(InputView, DramView, bool), (MemoryError, InputView, DramView)> {
    let qsz = event_ring_size(s);
    let slot = (s.last_avail_idx[0] as u32 % qsz) as u64;
    let last = s.last_avail_idx.update(0, wadd16(s.last_avail_idx[0], 1));
    match load16_phys(d, wadd(wadd(s.queue_avail[0], 4), (slot * 2) as u64)) {
        Err(e) => Err((e, s, d)),
        Ok(head) => match phys(wadd(s.queue_desc[0], (head as u64 * 16) as u64)) {
            Err(e) => Err((e, s, d)),
            Ok(od) => match load64(d, od) {
                Err(e) => Err((e, s, d)),
                Ok(buf_addr) => match load32(d, (od + 8) as u64) {
                    Err(e) => Err((e, s, d)),
                    Ok(buf_len) => match load16(d, (od + 12) as u64) {
                        Err(e) => Err((e, s, d)),
                        Ok(flags) => if (flags as u64) & VRING_DESC_F_WRITE != 0 && buf_len >= 8 {
                            let s1 = InputView { events: s.events.drop_first(), ..s };
                            match phys(buf_addr) {
                                Err(e) => Err((e, s1, d)),
                                Ok(ob) => match event_store(d, ob, s.events[0]) {
                                    Err((e, d1)) => Err((e, s1, d1)),
                                    Ok(d1) => match used_ring_spec(s.queue_used[0], qsz, d1, head, 8) {
                                        Err((e, d2)) => Err((e, s1, d2)),
                                        Ok(d2) => Ok((InputView { last_avail_idx: last, ..s1 }, d2, true)),
                                    },
                                },
                            }
                        } else {
                            Ok((InputView { last_avail_idx: last, ..s }, d, false))
                        },
                    },
                },
            },
        },
    }
}

/// Handle up to `k` available buffers while events remain; the flag tells
/// whether any event was delivered.
pub open spec fn deliver_drain(s: InputView, d: DramView, k: nat) -> Result<(InputView, DramView, bool), (MemoryError, InputView, DramView)>
    decreases k,
{
    if k == 0 || s.events.len() == 0 {
        Ok((s, d, false))
    } else {
        match deliver_step(s, d) {
            Err(x) => Err(x),
            Ok((s1, d1, w)) => match deliver_drain(s1, d1, (k - 1) as nat) {
                Err(x) => Err(x),
                Ok((s2, d2, w2)) => Ok((s2, d2, w || w2)),
            },
        }
    }
}

/// Delivery of pending events into the event queue; the interrupt is raised
/// when at least one event was delivered.
pub open spec fn deliver_spec(s: InputView, d: DramView) -> Result<(InputView, DramView), (MemoryError, InputView, DramView)> {
    if !s.queue_ready[0] || s.events.len() == 0 {
        Ok((s, d))
    } else {
        match load16_phys(d, wadd(s.queue_avail[0], 2)) {
            Err(e) => Err((e, s, d)),
            Ok(avail) => match deliver_drain(s, d, pending_count(s.last_avail_idx[0], avail)) {
                Err(x) => Err(x),
                Ok((s1, d1, any)) => Ok((if any { InputView { interrupt_status: s1.interrupt_status | 1, ..s1 } } else { s1 }, d1)),
            },
        }
    }
}

/// The device name in config space.
pub open spec fn device_name() -> Seq<u8> {
    seq![0x56u8, 0x69u8, 0x72u8, 0x74u8, 0x49u8, 0x4Fu8, 0x20u8, 0x4Bu8, 0x65u8, 0x79u8, 0x62u8, 0x6Fu8, 0x61u8, 0x72u8, 0x64u8, 0x00u8]
}

/// The serial number in config space.
pub open spec fn device_serial() -> Seq<u8> {
    seq![0x31u8, 0x32u8, 0x33u8, 0x34u8, 0x35u8, 0x36u8, 0x37u8, 0x38u8]
}

/// Config space contents at `offset` (select, subselect, size, data).
pub open spec fn config_value(s: InputView, offset: u64) -> u64 {
    if offset == 0x100 {
        s.cfg_select as u64
    } else if offset == 0x101 {
        s.cfg_subsel as u64
    } else if offset == 0x102 {
        if s.cfg_select == VIRTIO_INPUT_CFG_ID_NAME {
            16
        } else if s.cfg_select == VIRTIO_INPUT_CFG_ID_SERIAL || s.cfg_select == VIRTIO_INPUT_CFG_ID_DEVIDS {
            8
        } else if s.cfg_select == VIRTIO_INPUT_CFG_EV_BITS && s.cfg_subsel == EV_KEY as u8 {
            16
        } else {
            0
        }
    } else if 0x108 <= offset < 0x188 {
        let i = offset - 0x108;
        if s.cfg_select == VIRTIO_INPUT_CFG_ID_NAME {
            if i < 16 { device_name()[i] as u64 } else { 0 }
        } else if s.cfg_select == VIRTIO_INPUT_CFG_ID_SERIAL {
            if i < 8 { device_serial()[i] as u64 } else { 0 }
        } else if s.cfg_select == VIRTIO_INPUT_CFG_ID_DEVIDS {
            if i <= 1 { 0x06 } else if i <= 7 { 0x01 } else { 0 }
        } else if s.cfg_select == VIRTIO_INPUT_CFG_EV_BITS {
            0xFF
        } else {
            0
        }
    } else {
        0
    }
}

/// Value of a register read at `offset`.
pub open spec fn read_spec(s: InputView, offset: u64) -> u64 {
    let q = s.queue_sel as int;
    if offset == MAGIC_VALUE_OFFSET {
        MAGIC_VALUE
    } else if offset == VERSION_OFFSET {
        VERSION
    } else if offset == DEVICE_ID_OFFSET {
        VIRTIO_INPUT_DEVICE_ID as u64
    } else if offset == VENDOR_ID_OFFSET {
        VENDOR_ID
    } else if offset == DEVICE_FEATURES_OFFSET {
        0
    } else if offset == DEVICE_FEATURES_SEL_OFFSET {
        s.device_features_sel as u64
    } else if offset == DRIVER_FEATURES_OFFSET {
        s.driver_features as u64
    } else if offset == DRIVER_FEATURES_SEL_OFFSET {
        s.driver_features_sel as u64
    } else if offset == GUEST_PAGE_SIZE_OFFSET {
        s.page_size as u64
    } else if offset == QUEUE_NUM_MAX_OFFSET {
        QUEUE_SIZE as u64
    } else if offset == QUEUE_SEL_OFFSET {
        s.queue_sel as u64
    } else if offset == QUEUE_NUM_OFFSET {
        if q < 2 { s.queue_num[q] as u64 } else { 0 }
    } else if offset == QUEUE_READY_OFFSET {
        if q < 2 && s.queue_ready[q] { 1 } else { 0 }
    } else if offset == INTERRUPT_STATUS_OFFSET {
        s.interrupt_status as u64
    } else if offset == STATUS_OFFSET {
        s.status as u64
    } else if offset == CONFIG_GENERATION_OFFSET {
        0
    } else if offset >= 0x100 {
        config_value(s, offset)
    } else {
        0
    }
}

/// Queue `q` addresses after a legacy QueuePFN write of a nonzero frame
/// number (arithmetic modulo 2^64).
pub open spec fn pfn_layout(s: InputView, q: int, pfn: u32) -> InputView {
    let (desc, avail, used) = legacy_layout(s.page_size, s.queue_num[q], pfn);
    InputView {
        queue_desc: s.queue_desc.update(q, desc),
        queue_avail: s.queue_avail.update(q, avail),
        queue_used: s.queue_used.update(q, used),
        queue_ready: s.queue_ready.update(q, true),
        ..s
    }
}

pub open spec fn low_half(x: u64, v: u32) -> u64 {
    (x & 0xffff_ffff_0000_0000) | (v as u64)
}

pub open spec fn high_half(x: u64, v: u32) -> u64 {
    (x & 0x0000_0000_ffff_ffff) | ((v as u64) << 32u64)
}

/// State after a register write other than a queue notification.
pub open spec fn write_reg_spec(s: InputView, offset: u64, val: u64) -> InputView {
    let v = val as u32;
    let q = s.queue_sel as int;
    if offset == DEVICE_FEATURES_SEL_OFFSET {
        InputView { device_features_sel: v, ..s }
    } else if offset == DRIVER_FEATURES_OFFSET {
        InputView { driver_features: v, ..s }
    } else if offset == DRIVER_FEATURES_SEL_OFFSET {
        InputView { driver_features_sel: v, ..s }
    } else if offset == QUEUE_SEL_OFFSET {
        InputView { queue_sel: v, ..s }
    } else if offset == GUEST_PAGE_SIZE_OFFSET {
        InputView { page_size: v, ..s }
    } else if offset == INTERRUPT_ACK_OFFSET {
        InputView { interrupt_status: s.interrupt_status & !v, ..s }
    } else if offset == STATUS_OFFSET {
        if v == 0 {
            InputView { status: 0, queue_ready: seq![false, false], interrupt_status: 0, last_avail_idx: seq![0u16, 0u16], ..s }
        } else {
            InputView { status: v, ..s }
        }
    } else if offset == 0x100 {
        InputView { cfg_select: val as u8, ..s }
    } else if offset == 0x101 {
        InputView { cfg_subsel: val as u8, ..s }
    } else if q >= 2 {
        s
    } else if offset == QUEUE_NUM_OFFSET {
        InputView { queue_num: s.queue_num.update(q, v), ..s }
    } else if offset == QUEUE_PFN_OFFSET {
        if v != 0 { pfn_layout(s, q, v) } else { s }
    } else if offset == QUEUE_READY_OFFSET {
        InputView { queue_ready: s.queue_ready.update(q, v != 0), ..s }
    } else if offset == QUEUE_DESC_LOW_OFFSET {
        InputView { queue_desc: s.queue_desc.update(q, low_half(s.queue_desc[q], v)), ..s }
    } else if offset == QUEUE_DESC_HIGH_OFFSET {
        InputView { queue_desc: s.queue_desc.update(q, high_half(s.queue_desc[q], v)), ..s }
    } else if offset == QUEUE_DRIVER_LOW_OFFSET {
        InputView { queue_avail: s.queue_avail.update(q, low_half(s.queue_avail[q], v)), ..s }
    } else if offset == QUEUE_DRIVER_HIGH_OFFSET {
        InputView { queue_avail: s.queue_avail.update(q, high_half(s.queue_avail[q], v)), ..s }
    } else if offset == QUEUE_DEVICE_LOW_OFFSET {
        InputView { queue_used: s.queue_used.update(q, low_half(s.queue_used[q], v)), ..s }
    } else if offset == QUEUE_DEVICE_HIGH_OFFSET {
        InputView { queue_used: s.queue_used.update(q, high_half(s.queue_used[q], v)), ..s }
    } else {
        s
    }
}

/// VirtIO keyboard.
pub struct VirtioInput {
    driver_features: u32,
    driver_features_sel: u32,
    device_features_sel: u32,
    page_size: u32,
    queue_sel: u32,
    queue_num: [u32; 2],
    queue_desc: [u64; 2],
    queue_avail: [u64; 2],
    queue_used: [u64; 2],
    queue_ready: [bool; 2],
    interrupt_status: u32,
    status: u32,
    last_avail_idx: [u16; 2],
    event_queue: VecDeque<InputEvent>,
    cfg_select: u8,
    cfg_subsel: u8,
}

impl View for VirtioInput {
    type V = InputView;

    closed spec fn view(&self) -> InputView {
        InputView {
            driver_features: self.driver_features,
            driver_features_sel: self.driver_features_sel,
            device_features_sel: self.device_features_sel,
            page_size: self.page_size,
            queue_sel: self.queue_sel,
            queue_num: self.queue_num@,
            queue_desc: self.queue_desc@,
            queue_avail: self.queue_avail@,
            queue_used: self.queue_used@,
            queue_ready: self.queue_ready@,
            interrupt_status: self.interrupt_status,
            status: self.status,
            last_avail_idx: self.last_avail_idx@,
            events: self.event_queue@,
            cfg_select: self.cfg_select,
            cfg_subsel: self.cfg_subsel,
        }
    }
}

impl VirtioInput {
    /// A reset keyboard with no pending events.
    pub fn new() -> (r: Self)
        ensures
            r@.events.len() == 0,
            r@.page_size == 4096,
            r@.interrupt_status == 0,
            r@.queue_ready == seq![false, false],
            r@.last_avail_idx == seq![0u16, 0u16],
            r@.cfg_select == 0,
    {
        let r = Self {
            driver_features: 0,
            driver_features_sel: 0,
            device_features_sel: 0,
            page_size: 4096,
            queue_sel: 0,
            queue_num: [0u32; 2],
            queue_desc: [0u64; 2],
            queue_avail: [0u64; 2],
            queue_used: [0u64; 2],
            queue_ready: [false; 2],
            interrupt_status: 0,
            status: 0,
            last_avail_idx: [0u16; 2],
            event_queue: VecDeque::new(),
            cfg_select: 0,
            cfg_subsel: 0,
        };
        proof {
            assert(r@.queue_ready =~= seq![false, false]);
            assert(r@.last_avail_idx =~= seq![0u16, 0u16]);
        }
        r
    }

    /// Queue a key press (1) or release (0) followed by a SYN_REPORT.
    pub fn push_key_event(&mut self, code: u16, pressed: bool)
        ensures
            final(self)@ == (InputView {
                events: old(self)@.events
                    .push(InputEvent { event_type: EV_KEY, code, value: if pressed { 1 } else { 0 } })
                    .push(InputEvent { event_type: EV_SYN, code: 0, value: 0 }),
                ..old(self)@
            }),
    {
        self.event_queue.push_back(InputEvent { event_type: EV_KEY, code, value: if pressed { 1 } else { 0 } });
        self.event_queue.push_back(InputEvent { event_type: EV_SYN, code: 0, value: 0 });
    }

    /// Whether events wait for delivery.
    pub fn has_pending_events(&self) -> (r: bool)
        ensures
            r == (self@.events.len() > 0),
    {
        self.event_queue.len() > 0
    }

    fn store_event(dram: &mut Dram, o: u64, ev: InputEvent) -> (r: Result<(), MemoryError>)
        requires
            o <= u64::MAX - DRAM_BASE,
        ensures
            match event_store(old(dram)@, o, ev) {
                Ok(d1) => r is Ok && final(dram)@ == d1,
                Err((e, d1)) => r == Err::<(), MemoryError>(e) && final(dram)@ == d1,
            },
    {
        dram.store_16(o, ev.event_type as u64)?;
        dram.store_16(o + 2, ev.code as u64)?;
        dram.store_32(o + 4, ev.value as u64)?;
        Ok(())
    }

    fn deliver_one(&mut self, dram: &mut Dram) -> (r: Result<bool, MemoryError>)
        requires
            input_wf(old(self)@),
            old(self)@.events.len() > 0,
        ensures
            input_wf(final(self)@),
            match deliver_step(old(self)@, old(dram)@) {
                Ok((s1, d1, w)) => r == Ok::<bool, MemoryError>(w) && final(self)@ == s1 && final(dram)@ == d1,
                Err((e, s1, d1)) => r == Err::<bool, MemoryError>(e) && final(self)@ == s1 && final(dram)@ == d1,
            },
    {
        proof {
            reveal(deliver_step);
        }
        let qsz = if self.queue_num[0] > 0 { self.queue_num[0] } else { QUEUE_SIZE };
        let ring_slot = (self.last_avail_idx[0] as u32 % qsz) as u64;
        let head = load16_at_phys(dram, self.queue_avail[0].wrapping_add(4).wrapping_add(ring_slot * 2))?;
        let od = phys_to_offset(self.queue_desc[0].wrapping_add((head as u64) * 16))?;
        let buf_addr = dram.load_64(od)?;
        let buf_len = dram.load_32(od + 8)?;
        let flags = dram.load_16(od + 12)?;
        let mut wrote = false;
        if (flags as u64) & VRING_DESC_F_WRITE != 0 && buf_len >= 8 {
            let event = match self.event_queue.pop_front() {
                Some(ev) => ev,
                None => InputEvent { event_type: 0, code: 0, value: 0 },
            };
            let ob = phys_to_offset(buf_addr)?;
            Self::store_event(dram, ob, event)?;
            push_used_elem(dram, self.queue_used[0], qsz, head, 8)?;
            wrote = true;
        }
        self.last_avail_idx[0] = self.last_avail_idx[0].wrapping_add(1);
        proof {
            assert(self@.last_avail_idx =~= old(self)@.last_avail_idx.update(0, wadd16(old(self)@.last_avail_idx[0], 1)));
        }
        Ok(wrote)
    }

    fn deliver_events(&mut self, dram: &mut Dram) -> (r: Result<(), MemoryError>)
        requires
            input_wf(old(self)@),
        ensures
            input_wf(final(self)@),
            match deliver_spec(old(self)@, old(dram)@) {
                Ok((s1, d1)) => r is Ok && final(self)@ == s1 && final(dram)@ == d1,
                Err((e, s1, d1)) => r == Err::<(), MemoryError>(e) && final(self)@ == s1 && final(dram)@ == d1,
            },
    {
        if !self.queue_ready[0] || self.event_queue.len() == 0 {
            return Ok(());
        }
        let avail_idx = load16_at_phys(dram, self.queue_avail[0].wrapping_add(2))?;
        let ghost k = pending_count(self.last_avail_idx[0], avail_idx);
        let ghost total = deliver_drain(self@, dram@, k);
        let mut processed_any = false;
        while self.last_avail_idx[0] != avail_idx && self.event_queue.len() > 0
            invariant
                input_wf(self@),
                total == deliver_drain(old(self)@, old(dram)@, k),
                total == match deliver_drain(self@, dram@, pending_count(self@.last_avail_idx[0], avail_idx)) {
                    Ok((s2, d2, w2)) => Ok((s2, d2, processed_any || w2)),
                    Err(x) => Err(x),
                },
                load16_phys(old(dram)@, wadd(old(self)@.queue_avail[0], 2)) == Ok::<u16, MemoryError>(avail_idx),
                old(self)@.queue_ready[0],
                old(self)@.events.len() > 0,
                k == pending_count(old(self)@.last_avail_idx[0], avail_idx),
            decreases pending_count(self@.last_avail_idx[0], avail_idx),
        {
            let ghost s0 = self@;
            let ghost d0 = dram@;
            proof {
                lemma_pending_step(s0.last_avail_idx[0], avail_idx);
                lemma_deliver_advances(s0, d0);
            }
            let w = self.deliver_one(dram)?;
            processed_any = processed_any || w;
        }
        proof {
            assert(deliver_drain(self@, dram@, pending_count(self@.last_avail_idx[0], avail_idx)) == Ok::<(InputView, DramView, bool), (MemoryError, InputView, DramView)>((self@, dram@, false)));
        }
        if processed_any {
            self.interrupt_status = self.interrupt_status | 1;
        }
        Ok(())
    }

    fn read_config(&self, offset: u64) -> (r: u64)
        ensures
            r == config_value(self@, offset),
    {
        if offset == 0x100 {
            self.cfg_select as u64
        } else if offset == 0x101 {
            self.cfg_subsel as u64
        } else if offset == 0x102 {
            if self.cfg_select == VIRTIO_INPUT_CFG_ID_NAME {
                16
            } else if self.cfg_select == VIRTIO_INPUT_CFG_ID_SERIAL || self.cfg_select == VIRTIO_INPUT_CFG_ID_DEVIDS {
                8
            } else if self.cfg_select == VIRTIO_INPUT_CFG_EV_BITS && self.cfg_subsel == EV_KEY as u8 {
                16
            } else {
                0
            }
        } else if offset >= 0x108 && offset < 0x188 {
            let i = (offset - 0x108) as usize;
            if self.cfg_select == VIRTIO_INPUT_CFG_ID_NAME {
                let name: [u8; 16] = [0x56u8, 0x69u8, 0x72u8, 0x74u8, 0x49u8, 0x4Fu8, 0x20u8, 0x4Bu8, 0x65u8, 0x79u8, 0x62u8, 0x6Fu8, 0x61u8, 0x72u8, 0x64u8, 0x00u8];
                proof {
                    assert(name@ =~= device_name());
                }
                if i < 16 { name[i] as u64 } else { 0 }
            } else if self.cfg_select == VIRTIO_INPUT_CFG_ID_SERIAL {
                let serial: [u8; 8] = [0x31u8, 0x32u8, 0x33u8, 0x34u8, 0x35u8, 0x36u8, 0x37u8, 0x38u8];
                proof {
                    assert(serial@ =~= device_serial());
                }
                if i < 8 { serial[i] as u64 } else { 0 }
            } else if self.cfg_select == VIRTIO_INPUT_CFG_ID_DEVIDS {
                if i <= 1 { 0x06 } else if i <= 7 { 0x01 } else { 0 }
            } else if self.cfg_select == VIRTIO_INPUT_CFG_EV_BITS {
                0xFF
            } else {
                0
            }
        } else {
            0
        }
    }
}

proof fn lemma_deliver_advances(s: InputView, d: DramView)
    requires
        input_wf(s),
    ensures
        deliver_step(s, d) matches Ok((s1, _, _)) ==> input_wf(s1) && s1.last_avail_idx[0] == wadd16(s.last_avail_idx[0], 1)
            && s1.queue_avail == s.queue_avail && s1.queue_ready == s.queue_ready,
        deliver_step(s, d) matches Err((_, s1, _)) ==> input_wf(s1),
{
    reveal(deliver_step);
}

impl Default for VirtioInput {
    fn default() -> (r: Self)
        ensures
            r@.events.len() == 0,
    {
        Self::new()
    }
}

impl VirtioDevice for VirtioInput {
    type Model = InputView;

    open spec fn model(&self) -> InputView {
        self@
    }

    open spec fn read_result(m: InputView, offset: u64) -> Result<u64, MemoryError> {
        Ok(read_spec(m, offset))
    }

    open spec fn write_result(m: InputView, offset: u64, val: u64, d: DramView) -> (Result<(), MemoryError>, InputView, DramView) {
        if offset == QUEUE_NOTIFY_OFFSET && val as u32 == 0 {
            notify_result(deliver_spec(m, d))
        } else {
            (Ok(()), write_reg_spec(m, offset, val), d)
        }
    }

    open spec fn poll_result(m: InputView, d: DramView) -> (Result<(), MemoryError>, InputView, DramView) {
        notify_result(deliver_spec(m, d))
    }

    open spec fn interrupt_line(m: InputView) -> bool {
        m.interrupt_status != 0
    }

    fn read(&self, offset: u64) -> (r: Result<u64, MemoryError>)
        ensures
            r == Ok::<u64, MemoryError>(read_spec(self@, offset)),
    {
        let q = self.queue_sel as usize;
        let val = if offset == MAGIC_VALUE_OFFSET {
            MAGIC_VALUE
        } else if offset == VERSION_OFFSET {
            VERSION
        } else if offset == DEVICE_ID_OFFSET {
            VIRTIO_INPUT_DEVICE_ID as u64
        } else if offset == VENDOR_ID_OFFSET {
            VENDOR_ID
        } else if offset == DEVICE_FEATURES_OFFSET {
            0
        } else if offset == DEVICE_FEATURES_SEL_OFFSET {
            self.device_features_sel as u64
        } else if offset == DRIVER_FEATURES_OFFSET {
            self.driver_features as u64
        } else if offset == DRIVER_FEATURES_SEL_OFFSET {
            self.driver_features_sel as u64
        } else if offset == GUEST_PAGE_SIZE_OFFSET {
            self.page_size as u64
        } else if offset == QUEUE_NUM_MAX_OFFSET {
            QUEUE_SIZE as u64
        } else if offset == QUEUE_SEL_OFFSET {
            self.queue_sel as u64
        } else if offset == QUEUE_NUM_OFFSET {
            if q < 2 { self.queue_num[q] as u64 } else { 0 }
        } else if offset == QUEUE_READY_OFFSET {
            if q < 2 && self.queue_ready[q] { 1 } else { 0 }
        } else if offset == INTERRUPT_STATUS_OFFSET {
            self.interrupt_status as u64
        } else if offset == STATUS_OFFSET {
            self.status as u64
        } else if offset == CONFIG_GENERATION_OFFSET {
            0
        } else if offset >= 0x100 {
            self.read_config(offset)
        } else {
            0
        };
        Ok(val)
    }

    fn write(&mut self, offset: u64, val: u64, dram: &mut Dram) -> (r: Result<(), MemoryError>)
        ensures
            offset == QUEUE_NOTIFY_OFFSET && val as u32 == 0 ==> match deliver_spec(old(self)@, old(dram)@) {
                Ok((s1, d1)) => r is Ok && final(self)@ == s1 && final(dram)@ == d1,
                Err((e, s1, d1)) => r == Err::<(), MemoryError>(e) && final(self)@ == s1 && final(dram)@ == d1,
            },
            !(offset == QUEUE_NOTIFY_OFFSET && val as u32 == 0) ==> r is Ok
                && final(self)@ == write_reg_spec(old(self)@, offset, val) && final(dram)@ == old(dram)@,
    {
        let q = self.queue_sel as usize;
        let val32 = val as u32;
        if offset == DEVICE_FEATURES_SEL_OFFSET {
            self.device_features_sel = val32;
        } else if offset == DRIVER_FEATURES_OFFSET {
            self.driver_features = val32;
        } else if offset == DRIVER_FEATURES_SEL_OFFSET {
            self.driver_features_sel = val32;
        } else if offset == QUEUE_SEL_OFFSET {
            self.queue_sel = val32;
        } else if offset == GUEST_PAGE_SIZE_OFFSET {
            self.page_size = val32;
        } else if offset == QUEUE_NOTIFY_OFFSET {
            if val32 == 0 {
                let r = self.deliver_events(dram);
                match r {
                    Ok(_) => return Ok(()),
                    Err(e) => return Err(e),
                }
            }
        } else if offset == INTERRUPT_ACK_OFFSET {
            self.interrupt_status = self.interrupt_status & !val32;
        } else if offset == STATUS_OFFSET {
            if val32 == 0 {
                self.status = 0;
                self.queue_ready = [false, false];
                self.interrupt_status = 0;
                self.last_avail_idx = [0u16, 0u16];
                proof {
                    assert(self@.queue_ready =~= seq![false, false]);
                    assert(self@.last_avail_idx =~= seq![0u16, 0u16]);
                }
            } else {
                self.status = val32;
            }
        } else if offset == 0x100 {
            self.cfg_select = val as u8;
        } else if offset == 0x101 {
            self.cfg_subsel = val as u8;
        } else if q >= 2 {
        } else if offset == QUEUE_NUM_OFFSET {
            self.queue_num[q] = val32;
        } else if offset == QUEUE_PFN_OFFSET {
            if val32 != 0 {
                let (desc, avail, used) = queue_layout(self.page_size, self.queue_num[q], val32);
                self.queue_desc[q] = desc;
                self.queue_avail[q] = avail;
                self.queue_used[q] = used;
                self.queue_ready[q] = true;
            }
        } else if offset == QUEUE_READY_OFFSET {
            self.queue_ready[q] = val32 != 0;
        } else if offset == QUEUE_DESC_LOW_OFFSET {
            self.queue_desc[q] = (self.queue_desc[q] & 0xffff_ffff_0000_0000) | (val32 as u64);
        } else if offset == QUEUE_DESC_HIGH_OFFSET {
            self.queue_desc[q] = (self.queue_desc[q] & 0x0000_0000_ffff_ffff) | ((val32 as u64) << 32u64);
        } else if offset == QUEUE_DRIVER_LOW_OFFSET {
            self.queue_avail[q] = (self.queue_avail[q] & 0xffff_ffff_0000_0000) | (val32 as u64);
        } else if offset == QUEUE_DRIVER_HIGH_OFFSET {
            self.queue_avail[q] = (self.queue_avail[q] & 0x0000_0000_ffff_ffff) | ((val32 as u64) << 32u64);
        } else if offset == QUEUE_DEVICE_LOW_OFFSET {
            self.queue_used[q] = (self.queue_used[q] & 0xffff_ffff_0000_0000) | (val32 as u64);
        } else if offset == QUEUE_DEVICE_HIGH_OFFSET {
            self.queue_used[q] = (self.queue_used[q] & 0x0000_0000_ffff_ffff) | ((val32 as u64) << 32u64);
        }
        proof {
            assert(self@ =~~= write_reg_spec(old(self)@, offset, val));
        }
        Ok(())
    }

    fn is_interrupting(&self) -> (r: bool)
        ensures
            r == (self@.interrupt_status != 0),
    {
        self.interrupt_status != 0
    }

    fn device_id(&self) -> (r: u32)
        ensures
            r == VIRTIO_INPUT_DEVICE_ID,
    {
        VIRTIO_INPUT_DEVICE_ID
    }

    fn poll(&mut self, dram: &mut Dram) -> (r: Result<(), MemoryError>)
        ensures
            match deliver_spec(old(self)@, old(dram)@) {
                Ok((s1, d1)) => r is Ok && final(self)@ == s1 && final(dram)@ == d1,
                Err((e, s1, d1)) => r == Err::<(), MemoryError>(e) && final(self)@ == s1 && final(dram)@ == d1,
            },
    {
        match self.deliver_events(dram) {
            Ok(_) => Ok(()),
            Err(e) => Err(e),
        }
    }
}

/// Linux key code for a JavaScript key code, if the key is mapped.
pub fn js_keycode_to_linux(js_code: u32) -> (r: Option<u16>)
    ensures
        r == linux_key_of(js_code),
{
    match js_code {
        27 => Some(KEY_ESC),
        48 => Some(KEY_0),
        49 => Some(KEY_1),
        50 => Some(KEY_2),
        51 => Some(KEY_3),
        52 => Some(KEY_4),
        53 => Some(KEY_5),
        54 => Some(KEY_6),
        55 => Some(KEY_7),
        56 => Some(KEY_8),
        57 => Some(KEY_9),
        65 => Some(KEY_A),
        66 => Some(KEY_B),
        67 => Some(KEY_C),
        68 => Some(KEY_D),
        69 => Some(KEY_E),
        70 => Some(KEY_F),
        71 => Some(KEY_G),
        72 => Some(KEY_H),
        73 => Some(KEY_I),
        74 => Some(KEY_J),
        75 => Some(KEY_K),
        76 => Some(KEY_L),
        77 => Some(KEY_M),
        78 => Some(KEY_N),
        79 => Some(KEY_O),
        80 => Some(KEY_P),
        81 => Some(KEY_Q),
        82 => Some(KEY_R),
        83 => Some(KEY_S),
        84 => Some(KEY_T),
        85 => Some(KEY_U),
        86 => Some(KEY_V),
        87 => Some(KEY_W),
        88 => Some(KEY_X),
        89 => Some(KEY_Y),
        90 => Some(KEY_Z),
        8 => Some(KEY_BACKSPACE),
        9 => Some(KEY_TAB),
        13 => Some(KEY_ENTER),
        16 => Some(KEY_LEFTSHIFT),
        17 => Some(KEY_LEFTCTRL),
        18 => Some(KEY_LEFTALT),
        20 => Some(KEY_CAPSLOCK),
        32 => Some(KEY_SPACE),
        33 => Some(KEY_PAGEUP),
        34 => Some(KEY_PAGEDOWN),
        35 => Some(KEY_END),
        36 => Some(KEY_HOME),
        37 => Some(KEY_LEFT),
        38 => Some(KEY_UP),
        39 => Some(KEY_RIGHT),
        40 => Some(KEY_DOWN),
        45 => Some(KEY_INSERT),
        46 => Some(KEY_DELETE),
        112 => Some(KEY_F1),
        113 => Some(KEY_F2),
        114 => Some(KEY_F3),
        115 => Some(KEY_F4),
        116 => Some(KEY_F5),
        117 => Some(KEY_F6),
        118 => Some(KEY_F7),
        119 => Some(KEY_F8),
        120 => Some(KEY_F9),
        121 => Some(KEY_F10),
        122 => Some(KEY_F11),
        123 => Some(KEY_F12),
        186 => Some(KEY_SEMICOLON),
        187 => Some(KEY_EQUAL),
        188 => Some(KEY_COMMA),
        189 => Some(KEY_MINUS),
        190 => Some(KEY_DOT),
        191 => Some(KEY_SLASH),
        192 => Some(KEY_GRAVE),
        219 => Some(KEY_LEFTBRACE),
        220 => Some(KEY_BACKSLASH),
        221 => Some(KEY_RIGHTBRACE),
        222 => Some(KEY_APOSTROPHE),
        _ => None,
    }
}

} // verus!
