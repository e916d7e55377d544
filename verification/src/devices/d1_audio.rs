//! D1-style audio codec: the guest writes interleaved 16-bit stereo frames
//! into a bounded FIFO that the host drains for playback.

use vstd::prelude::*;
use std::collections::VecDeque;

verus! {

/// Audio codec base address.
pub const D1_AUDIO_BASE: u64 = 0x0203_0000;
/// Audio codec window size.
pub const D1_AUDIO_SIZE: u64 = 0x1000;

/// Control: enable, reset.
pub const CODEC_CTL: u64 = 0x00;
/// Status: full, empty, underrun.
pub const CODEC_STS: u64 = 0x04;
/// Sample FIFO (left in the low half, right in the high half).
pub const CODEC_DATA: u64 = 0x08;
/// FIFO fill level.
pub const CODEC_BUF_LEVEL: u64 = 0x0C;
/// Sample rate in Hz.
pub const CODEC_SAMPLE_RATE: u64 = 0x10;

pub const CTL_ENABLE: u32 = 1;
pub const CTL_RESET: u32 = 2;
pub const STS_BUFFER_FULL: u32 = 1;
pub const STS_BUFFER_EMPTY: u32 = 2;
pub const STS_UNDERRUN: u32 = 4;

/// Sample rate after power-on.
pub const DEFAULT_SAMPLE_RATE: u32 = 48000;
/// FIFO capacity in frames.
pub const BUFFER_CAPACITY: usize = 16384;

/// Abstract codec state.
pub struct AudioView {
    /// Queued frames, oldest first.
    pub buffer: Seq<u32>,
    pub ctl: u32,
    pub sample_rate: u32,
    pub underrun: bool,
    pub enabled: bool,
}

/// The FIFO never holds more than its capacity.
pub open spec fn audio_wf(v: AudioView) -> bool {
    v.buffer.len() <= BUFFER_CAPACITY
}

/// Status register value.
pub open spec fn status_value(v: AudioView) -> u32 {
    let s1: u32 = if v.buffer.len() >= BUFFER_CAPACITY { 0u32 | STS_BUFFER_FULL } else { 0u32 };
    let s2: u32 = if v.buffer.len() == 0 { s1 | STS_BUFFER_EMPTY } else { s1 };
    if v.underrun { s2 | STS_UNDERRUN } else { s2 }
}

/// Value of a 32-bit register read at window offset `offset`.
pub open spec fn read_spec(v: AudioView, offset: u64) -> u32 {
    if offset == CODEC_CTL {
        v.ctl
    } else if offset == CODEC_STS {
        status_value(v)
    } else if offset == CODEC_BUF_LEVEL {
        v.buffer.len() as u32
    } else if offset == CODEC_SAMPLE_RATE {
        v.sample_rate
    } else {
        0
    }
}

/// State after a reset: FIFO empty, control cleared, disabled.
pub open spec fn reset_spec(v: AudioView) -> AudioView {
    AudioView { buffer: Seq::empty(), ctl: 0, underrun: false, enabled: false, ..v }
}

/// FIFO after queueing a frame: the oldest frame is dropped when full.
pub open spec fn queue_frame(buffer: Seq<u32>, frame: u32) -> Seq<u32> {
    if buffer.len() >= BUFFER_CAPACITY { buffer.drop_first().push(frame) } else { buffer.push(frame) }
}

/// State after a 32-bit register write at window offset `offset`.
pub open spec fn write_spec(v: AudioView, offset: u64, value: u32) -> AudioView {
    if offset == CODEC_CTL {
        if value & CTL_RESET != 0 {
            reset_spec(v)
        } else {
            AudioView { ctl: value, enabled: value & CTL_ENABLE != 0, ..v }
        }
    } else if offset == CODEC_DATA {
        if v.enabled { AudioView { buffer: queue_frame(v.buffer, value), ..v } } else { v }
    } else if offset == CODEC_SAMPLE_RATE {
        AudioView { sample_rate: value, ..v }
    } else {
        v
    }
}

/// Left (low half) and right (high half) channel of a frame.
pub open spec fn unpack_frame(frame: u32) -> (i16, i16) {
    ((frame & 0xFFFF) as i16, ((frame >> 16u32) & 0xFFFF) as i16)
}

/// Emulated D1 audio codec.
pub struct D1AudioEmulated {
    buffer: VecDeque<u32>,
    ctl: u32,
    sample_rate: u32,
    underrun: bool,
    enabled: bool,
}

impl View for D1AudioEmulated {
    type V = AudioView;

    closed spec fn view(&self) -> AudioView {
        AudioView {
            buffer: self.buffer@,
            ctl: self.ctl,
            sample_rate: self.sample_rate,
            underrun: self.underrun,
            enabled: self.enabled,
        }
    }
}

impl D1AudioEmulated {
    /// Well-formedness of the codec.
    pub open spec fn wf(&self) -> bool {
        audio_wf(self@)
    }

    /// A disabled codec at 48 kHz with an empty FIFO.
    pub fn new() -> (r: Self)
        ensures
            r.wf(),
            r@ == (AudioView { buffer: Seq::empty(), ctl: 0, sample_rate: DEFAULT_SAMPLE_RATE, underrun: false, enabled: false }),
    {
        Self {
            buffer: VecDeque::new(),
            ctl: 0,
            sample_rate: DEFAULT_SAMPLE_RATE,
            underrun: false,
            enabled: false,
        }
    }

    /// Whether playback is enabled.
    pub fn is_enabled(&self) -> (r: bool)
        ensures
            r == self@.enabled,
    {
        self.enabled
    }

    /// Current sample rate.
    pub fn sample_rate(&self) -> (r: u32)
        ensures
            r == self@.sample_rate,
    {
        self.sample_rate
    }

    /// Number of queued frames.
    pub fn buffer_level(&self) -> (r: usize)
        ensures
            r == self@.buffer.len(),
    {
        self.buffer.len()
    }

    /// Take up to `max_samples` of the oldest frames, split into (left, right).
    pub fn drain_frames(&mut self, max_samples: usize) -> (r: Vec<(i16, i16)>)
        requires
            old(self).wf(),
        ensures
            final(self).wf(),
            ({
                let count = if old(self)@.buffer.len() < max_samples { old(self)@.buffer.len() } else { max_samples as nat };
                &&& r@ == old(self)@.buffer.take(count as int).map_values(|f: u32| unpack_frame(f))
                &&& final(self)@ == (AudioView { buffer: old(self)@.buffer.skip(count as int), ..old(self)@ })
            }),
    {
        let count = if self.buffer.len() < max_samples { self.buffer.len() } else { max_samples };
        let ghost b0 = self.buffer@;
        let mut out: Vec<(i16, i16)> = Vec::new();
        let mut i: usize = 0;
        while i < count
            invariant
                i <= count,
                count <= b0.len(),
                self.buffer@ == b0.skip(i as int),
                out@ == b0.take(i as int).map_values(|f: u32| unpack_frame(f)),
                self.ctl == old(self).ctl,
                self.sample_rate == old(self).sample_rate,
                self.underrun == old(self).underrun,
                self.enabled == old(self).enabled,
            decreases count - i,
        {
            let frame = match self.buffer.pop_front() {
                Some(f) => f,
                None => 0,
            };
            let left = (frame & 0xFFFF) as i16;
            let right = ((frame >> 16u32) & 0xFFFF) as i16;
            out.push((left, right));
            proof {
                assert(self.buffer@ =~= b0.skip(i + 1));
                assert(out@ =~= b0.take(i + 1).map_values(|f: u32| unpack_frame(f)));
            }
            i = i + 1;
        }
        out
    }

    /// Whether any frame is queued.
    pub fn has_samples(&self) -> (r: bool)
        ensures
            r == (self@.buffer.len() > 0),
    {
        self.buffer.len() > 0
    }

    fn reset(&mut self)
        ensures
            final(self)@ == reset_spec(old(self)@),
    {
        self.buffer.clear();
        self.ctl = 0;
        self.underrun = false;
        self.enabled = false;
    }

    fn status(&self) -> (r: u32)
        ensures
            r == status_value(self@),
    {
        let mut status: u32 = 0;
        if self.buffer.len() >= BUFFER_CAPACITY {
            status = status | STS_BUFFER_FULL;
        }
        if self.buffer.len() == 0 {
            status = status | STS_BUFFER_EMPTY;
        }
        if self.underrun {
            status = status | STS_UNDERRUN;
        }
        status
    }

    /// 32-bit register read.
    pub fn mmio_read32(&self, addr: u64) -> (r: u32)
        requires
            addr >= D1_AUDIO_BASE,
            self.wf(),
        ensures
            r == read_spec(self@, (addr - D1_AUDIO_BASE) as u64),
    {
        let offset = addr - D1_AUDIO_BASE;
        if offset == CODEC_CTL {
            self.ctl
        } else if offset == CODEC_STS {
            self.status()
        } else if offset == CODEC_BUF_LEVEL {
            self.buffer.len() as u32
        } else if offset == CODEC_SAMPLE_RATE {
            self.sample_rate
        } else {
            0
        }
    }

    /// 32-bit register write: control (with self-clearing reset), sample
    /// FIFO (only while enabled, dropping the oldest frame when full) and
    /// sample rate.
    pub fn mmio_write32(&mut self, addr: u64, value: u32)
        requires
            addr >= D1_AUDIO_BASE,
            old(self).wf(),
        ensures
            final(self).wf(),
            final(self)@ == write_spec(old(self)@, (addr - D1_AUDIO_BASE) as u64, value),
    {
        let offset = addr - D1_AUDIO_BASE;
        if offset == CODEC_CTL {
            if (value & CTL_RESET) != 0 {
                self.reset();
                return;
            }
            self.ctl = value;
            self.enabled = (value & CTL_ENABLE) != 0;
        } else if offset == CODEC_DATA {
            if self.enabled {
                let ghost b0 = self.buffer@;
                while self.buffer.len() >= BUFFER_CAPACITY
                    invariant
                        self.buffer@.len() <= BUFFER_CAPACITY,
                        b0.len() <= BUFFER_CAPACITY,
                        self.buffer@ == b0 || (b0.len() >= BUFFER_CAPACITY && self.buffer@ == b0.drop_first()),
                        self.ctl == old(self).ctl,
                        self.sample_rate == old(self).sample_rate,
                        self.underrun == old(self).underrun,
                        self.enabled == old(self).enabled,
                    decreases self.buffer@.len(),
                {
                    self.buffer.pop_front();
                }
                self.buffer.push_back(value);
            }
        } else if offset == CODEC_SAMPLE_RATE {
            self.sample_rate = value;
        }
    }

    /// Byte read: the addressed byte of the containing word.
    pub fn mmio_read8(&self, addr: u64) -> (r: u8)
        requires
            addr & !3u64 >= D1_AUDIO_BASE,
            self.wf(),
        ensures
            r == (read_spec(self@, ((addr & !3u64) - D1_AUDIO_BASE) as u64) >> ((addr & 3) * 8) as u32) as u8,
    {
        let word = self.mmio_read32(addr & !3u64);
        assert(addr & 3 <= 3) by (bit_vector);
        let shift = (addr & 3) * 8;
        (word >> shift as u32) as u8
    }

    /// Byte writes are ignored.
    pub fn mmio_write8(&mut self, _addr: u64, _value: u8)
        ensures
            final(self)@ == old(self)@,
    {
    }
}

impl Default for D1AudioEmulated {
    fn default() -> (r: Self)
        ensures
            r.wf(),
            r@.buffer.len() == 0,
            r@.sample_rate == DEFAULT_SAMPLE_RATE,
            !r@.enabled,
    {
        Self::new()
    }
}

/// Queueing a frame keeps the FIFO within capacity, appends the frame last
/// and keeps the newest frames in order.
pub proof fn lemma_queue_frame_bounded(buffer: Seq<u32>, frame: u32)
    requires
        buffer.len() <= BUFFER_CAPACITY,
    ensures
        queue_frame(buffer, frame).len() <= BUFFER_CAPACITY,
        queue_frame(buffer, frame).last() == frame,
        buffer.len() < BUFFER_CAPACITY ==> queue_frame(buffer, frame).len() == buffer.len() + 1,
        buffer.len() == BUFFER_CAPACITY ==> queue_frame(buffer, frame).subrange(0, BUFFER_CAPACITY - 1) == buffer.subrange(1, BUFFER_CAPACITY as int),
{
    if buffer.len() == BUFFER_CAPACITY {
        assert(queue_frame(buffer, frame).subrange(0, BUFFER_CAPACITY - 1) =~= buffer.subrange(1, BUFFER_CAPACITY as int));
    }
}

/// The register protocol of the codec, for any state: a sample written while
/// disabled is dropped; written while enabled it is queued last, the FIFO
/// staying within capacity; a control write without the reset bit sets the
/// enable bit as written; a control write with it empties the FIFO and
/// leaves the codec disabled, reading control back as 0.
pub proof fn lemma_codec_protocol(v: AudioView, sample: u32, value: u32)
    requires
        audio_wf(v),
    ensures
        !v.enabled ==> write_spec(v, CODEC_DATA, sample) == v,
        v.enabled ==> write_spec(v, CODEC_DATA, sample).buffer == queue_frame(v.buffer, sample)
            && audio_wf(write_spec(v, CODEC_DATA, sample))
            && write_spec(v, CODEC_DATA, sample).buffer.last() == sample,
        value & CTL_RESET == 0 ==> write_spec(v, CODEC_CTL, value).enabled == (value & CTL_ENABLE != 0)
            && write_spec(v, CODEC_CTL, value).buffer == v.buffer,
        value & CTL_RESET != 0 ==> write_spec(v, CODEC_CTL, value).buffer.len() == 0
            && !write_spec(v, CODEC_CTL, value).enabled
            && read_spec(write_spec(v, CODEC_CTL, value), CODEC_CTL) == 0,
{
    lemma_queue_frame_bounded(v.buffer, sample);
}

} // verus!
