//! GT911 capacitive touchscreen controller as seen through the D1 TWI2 window.
//!
//! Host touch, key and character events are queued; touch events are served
//! one at a time as the guest acknowledges them.

use vstd::prelude::*;

verus! {

/// GT911 I2C address (7-bit).
pub const GT911_I2C_ADDR: u8 = 0x14;
/// D1 I2C controller (TWI2) base.
pub const D1_I2C2_BASE: u64 = 0x0250_2000;
/// D1 I2C controller window size.
pub const D1_I2C2_SIZE: u64 = 0x400;

/// First touch point data register.
pub const GT911_TOUCH_DATA: u16 = 0x814F;
/// Touch status: buffer ready.
pub const TOUCH_STATUS_BUFFER_READY: u8 = 0x80;
/// Touch status: number of points.
pub const TOUCH_STATUS_POINT_MASK: u8 = 0x0F;
/// Panel width.
pub const DISPLAY_WIDTH: u16 = 1024;
/// Panel height.
pub const DISPLAY_HEIGHT: u16 = 768;

/// One touch point.
#[derive(Clone, Copy, Debug, Default)]
pub struct TouchPoint {
    pub id: u8,
    pub x: u16,
    pub y: u16,
    pub size: u16,
}

/// A touch event waiting to be served.
#[derive(Clone, Copy, Debug)]
pub struct QueuedTouchEvent {
    pub x: u16,
    pub y: u16,
    pub pressed: bool,
}

/// A keyboard event waiting to be consumed.
#[derive(Clone, Copy, Debug)]
pub struct QueuedKeyEvent {
    pub key_code: u16,
    pub pressed: bool,
}

/// Abstract controller state.
pub struct TouchView {
    pub points: Seq<TouchPoint>,
    pub num_points: u8,
    pub buffer_ready: bool,
    pub pending_int: bool,
    pub events: Seq<QueuedTouchEvent>,
    pub keys: Seq<QueuedKeyEvent>,
    pub chars: Seq<u8>,
    pub x_resolution: u16,
    pub y_resolution: u16,
}

/// Controller invariant: at most one point, counted by `num_points`, and
/// every served or queued coordinate lies on the panel.
pub open spec fn touch_wf(v: TouchView) -> bool {
    &&& v.x_resolution >= 1
    &&& v.y_resolution >= 1
    &&& v.points.len() <= 1
    &&& v.num_points as int == v.points.len()
    &&& forall|i: int| 0 <= i < v.points.len() ==> v.points[i].x < v.x_resolution && v.points[i].y < v.y_resolution
    &&& forall|i: int| 0 <= i < v.events.len() ==> v.events[i].x < v.x_resolution && v.events[i].y < v.y_resolution
}

/// The point a press event shows.
pub open spec fn point_of(e: QueuedTouchEvent) -> TouchPoint {
    TouchPoint { id: 0, x: e.x, y: e.y, size: 50 }
}

/// Serve the first queued touch event, if any: a press shows one point, a
/// release shows none; either way the buffer is ready and the interrupt raised.
pub open spec fn serve_next(v: TouchView) -> TouchView {
    if v.events.len() == 0 {
        v
    } else {
        let e = v.events[0];
        TouchView {
            events: v.events.drop_first(),
            points: if e.pressed { seq![point_of(e)] } else { Seq::empty() },
            num_points: if e.pressed { 1u8 } else { 0u8 },
            buffer_ready: true,
            pending_int: true,
            ..v
        }
    }
}

/// Clamp a coordinate onto the panel.
pub open spec fn clamp(c: u16, res: u16) -> u16 {
    if c < res - 1 { c } else { (res - 1) as u16 }
}

/// Byte `b` (0..8) of a touch point record.
pub open spec fn point_byte(p: TouchPoint, b: int) -> u8 {
    if b == 0 {
        p.id
    } else if b == 1 {
        (p.x & 0xFF) as u8
    } else if b == 2 {
        (p.x >> 8u16) as u8
    } else if b == 3 {
        (p.y & 0xFF) as u8
    } else if b == 4 {
        (p.y >> 8u16) as u8
    } else if b == 5 {
        (p.size & 0xFF) as u8
    } else if b == 6 {
        (p.size >> 8u16) as u8
    } else {
        0
    }
}

/// The status byte: point count and buffer-ready flag.
pub open spec fn status_byte(v: TouchView) -> u8 {
    if v.buffer_ready {
        (v.num_points & TOUCH_STATUS_POINT_MASK) | TOUCH_STATUS_BUFFER_READY
    } else {
        v.num_points & TOUCH_STATUS_POINT_MASK
    }
}

/// GT911 register contents.
pub open spec fn register_value(v: TouchView, addr: u16) -> u8 {
    if addr == 0x8140 {
        0x39
    } else if addr == 0x8141 || addr == 0x8142 {
        0x31
    } else if addr == 0x8144 {
        0x10
    } else if addr == 0x8145 {
        0x41
    } else if addr == 0x8146 {
        (v.x_resolution & 0xFF) as u8
    } else if addr == 0x8147 {
        (v.x_resolution >> 8u16) as u8
    } else if addr == 0x8148 {
        (v.y_resolution & 0xFF) as u8
    } else if addr == 0x8149 {
        (v.y_resolution >> 8u16) as u8
    } else if addr == 0x814E {
        status_byte(v)
    } else if 0x814F <= addr <= 0x8186 {
        let off = addr - 0x814F;
        if off / 8 < v.points.len() { point_byte(v.points[off / 8], off % 8) } else { 0 }
    } else {
        0
    }
}

/// Value of a 32-bit MMIO read at `offset` into the window.
pub open spec fn mmio_value(v: TouchView, offset: u64) -> u32 {
    if offset == 0x100 {
        if v.pending_int { 1 } else { 0 }
    } else if offset == 0x104 {
        if v.buffer_ready { (v.num_points as u32) | 0x80u32 } else { v.num_points as u32 }
    } else if offset == 0x108 {
        if v.points.len() > 0 { v.points[0].x as u32 } else { 0 }
    } else if offset == 0x10C {
        if v.points.len() > 0 { v.points[0].y as u32 } else { 0 }
    } else if offset == 0x110 {
        v.num_points as u32
    } else if offset == 0x114 {
        v.x_resolution as u32
    } else if offset == 0x118 {
        v.y_resolution as u32
    } else if offset == 0x11C {
        v.keys.len() as u32
    } else if offset == 0x120 {
        if v.keys.len() > 0 { v.keys[0].key_code as u32 } else { 0 }
    } else if offset == 0x124 {
        if v.keys.len() > 0 && v.keys[0].pressed { 1 } else { 0 }
    } else if offset == 0x128 {
        v.chars.len() as u32
    } else if offset == 0x12C {
        if v.chars.len() > 0 { v.chars[0] as u32 } else { 0 }
    } else {
        0
    }
}

/// State after a 32-bit MMIO write at `offset`.
pub open spec fn mmio_write_spec(v: TouchView, offset: u64, value: u32) -> TouchView {
    if offset == 0x100 && value == 0 && !v.buffer_ready {
        TouchView { pending_int: false, ..v }
    } else if offset == 0x104 && value == 0 {
        serve_next(TouchView { buffer_ready: false, ..v })
    } else if offset == 0x11C && value == 0 && v.keys.len() > 0 {
        TouchView { keys: v.keys.drop_first(), ..v }
    } else if offset == 0x128 && value == 0 && v.chars.len() > 0 {
        TouchView { chars: v.chars.drop_first(), ..v }
    } else {
        v
    }
}

/// Emulated GT911 touchscreen controller.
pub struct D1TouchEmulated {
    touch_points: Vec<TouchPoint>,
    num_points: u8,
    buffer_ready: bool,
    pending_int: bool,
    event_queue: Vec<QueuedTouchEvent>,
    key_event_queue: Vec<QueuedKeyEvent>,
    char_queue: Vec<u8>,
    x_resolution: u16,
    y_resolution: u16,
}

impl View for D1TouchEmulated {
    type V = TouchView;

    closed spec fn view(&self) -> TouchView {
        TouchView {
            points: self.touch_points@,
            num_points: self.num_points,
            buffer_ready: self.buffer_ready,
            pending_int: self.pending_int,
            events: self.event_queue@,
            keys: self.key_event_queue@,
            chars: self.char_queue@,
            x_resolution: self.x_resolution,
            y_resolution: self.y_resolution,
        }
    }
}

impl D1TouchEmulated {
    /// Well-formedness of the controller.
    pub open spec fn wf(&self) -> bool {
        touch_wf(self@)
    }

    /// An idle 1024x768 controller with empty queues.
    pub fn new() -> (r: Self)
        ensures
            r.wf(),
            r@.points.len() == 0,
            r@.num_points == 0,
            !r@.buffer_ready,
            !r@.pending_int,
            r@.events.len() == 0,
            r@.keys.len() == 0,
            r@.chars.len() == 0,
            r@.x_resolution == DISPLAY_WIDTH,
            r@.y_resolution == DISPLAY_HEIGHT,
    {
        Self {
            touch_points: Vec::new(),
            num_points: 0,
            buffer_ready: false,
            pending_int: false,
            event_queue: Vec::new(),
            key_event_queue: Vec::new(),
            char_queue: Vec::new(),
            x_resolution: DISPLAY_WIDTH,
            y_resolution: DISPLAY_HEIGHT,
        }
    }

    /// Queue a touch event with its coordinates clamped onto the panel; when
    /// no event is being served, serve the oldest one at once.
    pub fn push_touch(&mut self, x: u16, y: u16, pressed: bool)
        requires
            old(self).wf(),
        ensures
            final(self).wf(),
            ({
                let queued = TouchView {
                    events: old(self)@.events.push(QueuedTouchEvent {
                        x: clamp(x, old(self)@.x_resolution),
                        y: clamp(y, old(self)@.y_resolution),
                        pressed,
                    }),
                    ..old(self)@
                };
                final(self)@ == if !old(self)@.buffer_ready { serve_next(queued) } else { queued }
            }),
    {
        let cx = if x < self.x_resolution - 1 { x } else { self.x_resolution - 1 };
        let cy = if y < self.y_resolution - 1 { y } else { self.y_resolution - 1 };
        self.event_queue.push(QueuedTouchEvent { x: cx, y: cy, pressed });
        if !self.buffer_ready && self.event_queue.len() > 0 {
            self.apply_next_queued_event();
        }
    }

    /// Queue a keyboard event.
    pub fn push_key(&mut self, key_code: u16, pressed: bool)
        ensures
            final(self)@ == (TouchView { keys: old(self)@.keys.push(QueuedKeyEvent { key_code, pressed }), ..old(self)@ }),
    {
        self.key_event_queue.push(QueuedKeyEvent { key_code, pressed });
    }

    /// Queue a typed character.
    pub fn push_char(&mut self, ch: u8)
        ensures
            final(self)@ == (TouchView { chars: old(self)@.chars.push(ch), ..old(self)@ }),
    {
        self.char_queue.push(ch);
    }

    fn apply_next_queued_event(&mut self)
        requires
            old(self).wf(),
        ensures
            final(self).wf(),
            final(self)@ == serve_next(old(self)@),
    {
        if self.event_queue.len() > 0 {
            let event = self.event_queue.remove(0);
            if event.pressed {
                let point = TouchPoint { id: 0, x: event.x, y: event.y, size: 50 };
                if self.touch_points.len() == 0 {
                    self.touch_points.push(point);
                } else {
                    self.touch_points.set(0, point);
                }
                self.num_points = 1;
                proof {
                    assert(self.touch_points@ =~= seq![point_of(event)]);
                }
            } else {
                self.touch_points.clear();
                self.num_points = 0;
            }
            self.buffer_ready = true;
            self.pending_int = true;
            proof {
                assert(self.event_queue@ =~= old(self)@.events.drop_first());
            }
        }
    }

    /// Interrupt line state.
    pub fn is_int_pending(&self) -> (r: bool)
        ensures
            r == self@.pending_int,
    {
        self.pending_int
    }

    /// Lower the interrupt line.
    pub fn clear_int(&mut self)
        ensures
            final(self)@ == (TouchView { pending_int: false, ..old(self)@ }),
    {
        self.pending_int = false;
    }

    /// Read a GT911 register.
    pub fn read_register(&self, addr: u16) -> (r: u8)
        requires
            self.wf(),
        ensures
            r == register_value(self@, addr),
    {
        if addr == 0x8140 {
            0x39
        } else if addr == 0x8141 || addr == 0x8142 {
            0x31
        } else if addr == 0x8143 {
            0
        } else if addr == 0x8144 {
            0x10
        } else if addr == 0x8145 {
            0x41
        } else if addr == 0x8146 {
            (self.x_resolution & 0xFF) as u8
        } else if addr == 0x8147 {
            (self.x_resolution >> 8u16) as u8
        } else if addr == 0x8148 {
            (self.y_resolution & 0xFF) as u8
        } else if addr == 0x8149 {
            (self.y_resolution >> 8u16) as u8
        } else if addr == 0x814E {
            let mut status = self.num_points & TOUCH_STATUS_POINT_MASK;
            if self.buffer_ready {
                status = status | TOUCH_STATUS_BUFFER_READY;
            }
            status
        } else if addr >= 0x814F && addr <= 0x8186 {
            let point_offset = (addr - GT911_TOUCH_DATA) as usize;
            let point_idx = point_offset / 8;
            let byte_idx = point_offset % 8;
            if point_idx < self.touch_points.len() {
                let point = self.touch_points[point_idx];
                if byte_idx == 0 {
                    point.id
                } else if byte_idx == 1 {
                    (point.x & 0xFF) as u8
                } else if byte_idx == 2 {
                    (point.x >> 8u16) as u8
                } else if byte_idx == 3 {
                    (point.y & 0xFF) as u8
                } else if byte_idx == 4 {
                    (point.y >> 8u16) as u8
                } else if byte_idx == 5 {
                    (point.size & 0xFF) as u8
                } else if byte_idx == 6 {
                    (point.size >> 8u16) as u8
                } else {
                    0
                }
            } else {
                0
            }
        } else {
            0
        }
    }

    /// Write a GT911 register: writing 0 to the command register or to the
    /// status register clears buffer-ready; other writes are ignored.
    pub fn write_register(&mut self, addr: u16, value: u8)
        ensures
            final(self)@ == if (addr == 0x8040 || addr == 0x814E) && value == 0 {
                TouchView { buffer_ready: false, ..old(self)@ }
            } else {
                old(self)@
            },
    {
        if addr == 0x8040 {
            if value == 0 {
                self.buffer_ready = false;
            }
        } else if addr == 0x814E {
            if value == 0 {
                self.buffer_ready = false;
            }
        }
    }

    /// 32-bit read of the emulator's register window.
    pub fn mmio_read32(&mut self, addr: u64) -> (r: u32)
        requires
            addr >= D1_I2C2_BASE,
            old(self).wf(),
        ensures
            r == mmio_value(old(self)@, (addr - D1_I2C2_BASE) as u64),
            final(self)@ == old(self)@,
    {
        let offset = addr - D1_I2C2_BASE;
        if offset == 0x100 {
            if self.pending_int { 1 } else { 0 }
        } else if offset == 0x104 {
            let mut status = self.num_points as u32;
            if self.buffer_ready {
                status = status | 0x80;
            }
            status
        } else if offset == 0x108 {
            if self.touch_points.len() > 0 { self.touch_points[0].x as u32 } else { 0 }
        } else if offset == 0x10C {
            if self.touch_points.len() > 0 { self.touch_points[0].y as u32 } else { 0 }
        } else if offset == 0x110 {
            self.num_points as u32
        } else if offset == 0x114 {
            self.x_resolution as u32
        } else if offset == 0x118 {
            self.y_resolution as u32
        } else if offset == 0x11C {
            self.key_event_queue.len() as u32
        } else if offset == 0x120 {
            if self.key_event_queue.len() > 0 { self.key_event_queue[0].key_code as u32 } else { 0 }
        } else if offset == 0x124 {
            if self.key_event_queue.len() > 0 && self.key_event_queue[0].pressed { 1 } else { 0 }
        } else if offset == 0x128 {
            self.char_queue.len() as u32
        } else if offset == 0x12C {
            if self.char_queue.len() > 0 { self.char_queue[0] as u32 } else { 0 }
        } else {
            0
        }
    }

    /// 32-bit write of the emulator's register window: acknowledge the
    /// interrupt (unless a new event is being served), acknowledge the touch
    /// status (serving the next queued event), or consume a key or character.
    pub fn mmio_write32(&mut self, addr: u64, value: u32)
        requires
            addr >= D1_I2C2_BASE,
            old(self).wf(),
        ensures
            final(self).wf(),
            final(self)@ == mmio_write_spec(old(self)@, (addr - D1_I2C2_BASE) as u64, value),
    {
        let offset = addr - D1_I2C2_BASE;
        if offset == 0x100 {
            if value == 0 && !self.buffer_ready {
                self.pending_int = false;
            }
        } else if offset == 0x104 {
            if value == 0 {
                self.buffer_ready = false;
                if self.event_queue.len() > 0 {
                    self.apply_next_queued_event();
                }
            }
        } else if offset == 0x11C {
            if value == 0 && self.key_event_queue.len() > 0 {
                self.key_event_queue.remove(0);
                proof {
                    assert(self.key_event_queue@ =~= old(self)@.keys.drop_first());
                }
            }
        } else if offset == 0x128 {
            if value == 0 && self.char_queue.len() > 0 {
                self.char_queue.remove(0);
                proof {
                    assert(self.char_queue@ =~= old(self)@.chars.drop_first());
                }
            }
        }
    }

    /// Byte reads of the window return 0.
    pub fn mmio_read8(&self, _addr: u64) -> (r: u8)
        ensures
            r == 0,
    {
        0
    }

    /// Byte writes of the window are ignored.
    pub fn mmio_write8(&mut self, _addr: u64, _value: u8)
        ensures
            final(self)@ == old(self)@,
    {
    }
}

impl Default for D1TouchEmulated {
    fn default() -> (r: Self)
        ensures
            r.wf(),
            r@.points.len() == 0,
            r@.events.len() == 0,
            r@.keys.len() == 0,
            r@.chars.len() == 0,
    {
        Self::new()
    }
}

/// Every queued touch event is eventually shown in queue order: serving
/// takes the oldest event and leaves the rest in order.
pub proof fn lemma_serve_takes_oldest(v: TouchView)
    requires
        touch_wf(v),
        v.events.len() > 0,
    ensures
        touch_wf(serve_next(v)),
        serve_next(v).events == v.events.subrange(1, v.events.len() as int),
        v.events[0].pressed ==> serve_next(v).points == seq![point_of(v.events[0])],
        !v.events[0].pressed ==> serve_next(v).points.len() == 0,
        serve_next(v).buffer_ready && serve_next(v).pending_int,
{
    assert(serve_next(v).events =~= v.events.subrange(1, v.events.len() as int));
}

/// A touch pushed while nothing is being served is shown at once, clamped
/// onto the panel.
pub proof fn lemma_idle_touch_shown(v: TouchView, x: u16, y: u16)
    requires
        touch_wf(v),
        !v.buffer_ready,
        v.events.len() == 0,
    ensures
        ({
            let queued = TouchView {
                events: v.events.push(QueuedTouchEvent { x: clamp(x, v.x_resolution), y: clamp(y, v.y_resolution), pressed: true }),
                ..v
            };
            &&& serve_next(queued).points == seq![TouchPoint { id: 0, x: clamp(x, v.x_resolution), y: clamp(y, v.y_resolution), size: 50 }]
            &&& serve_next(queued).events.len() == 0
            &&& status_byte(serve_next(queued)) == 0x81
        }),
{
    let queued = TouchView {
        events: v.events.push(QueuedTouchEvent { x: clamp(x, v.x_resolution), y: clamp(y, v.y_resolution), pressed: true }),
        ..v
    };
    assert(serve_next(queued).events =~= Seq::<QueuedTouchEvent>::empty());
    assert((1u8 & 0x0Fu8) | 0x80u8 == 0x81u8) by (bit_vector);
}

} // verus!
