//! Allwinner D1 display pipeline (DE2 mixer, TCON, MIPI DSI, D-PHY) as the
//! guest's display driver sees it: layer and timing registers, and an ARGB
//! framebuffer that the host reads out.

use vstd::prelude::*;
use crate::dram::le32_at;

verus! {

pub const D1_DE_BASE: u64 = 0x0510_0000;
pub const D1_DE_SIZE: u64 = 0x10000;
pub const D1_MIPI_DSI_BASE: u64 = 0x0545_0000;
pub const D1_MIPI_DSI_SIZE: u64 = 0x1000;
pub const D1_DPHY_BASE: u64 = 0x0545_1000;
pub const D1_DPHY_SIZE: u64 = 0x1000;
pub const D1_TCON_LCD0: u64 = 0x0546_1000;
pub const D1_TCON_SIZE: u64 = 0x1000;

/// Display width in pixels.
pub const DISPLAY_WIDTH: u32 = 1024;
/// Display height in pixels.
pub const DISPLAY_HEIGHT: u32 = 768;
/// Pixels of the framebuffer.
pub const FRAMEBUFFER_PIXELS: usize = 786432;
/// Bytes of the framebuffer (4 per pixel).
pub const FRAMEBUFFER_SIZE: usize = 3145728;

/// Abstract device state.
pub struct DisplayView {
    pub framebuffer: Seq<u32>,
    pub glb_ctl: u32,
    pub glb_size: u32,
    pub ui_attr: u32,
    pub ui_size: u32,
    pub ui_coord: u32,
    pub ui_pitch: u32,
    pub ui_addr: u32,
    pub tcon_gctl: u32,
    pub tcon_ctl: u32,
    pub width: u32,
    pub height: u32,
    pub enabled: bool,
}

/// `addr` lies in the window of `size` bytes at `base`.
pub open spec fn in_window(addr: u64, base: u64, size: u64) -> bool {
    base <= addr < base + size
}

/// Value of a 32-bit register read at bus address `addr`.
pub open spec fn read32_spec(s: DisplayView, addr: u64) -> u32 {
    if in_window(addr, D1_DE_BASE, D1_DE_SIZE) {
        let off = addr - D1_DE_BASE;
        if off == 0x0000 {
            s.glb_ctl
        } else if off == 0x000C {
            s.glb_size
        } else if off == 0x3000 {
            s.ui_attr
        } else if off == 0x3004 {
            s.ui_size
        } else if off == 0x3008 {
            s.ui_coord
        } else if off == 0x300C {
            s.ui_pitch
        } else if off == 0x3010 {
            s.ui_addr
        } else {
            0
        }
    } else if in_window(addr, D1_TCON_LCD0, D1_TCON_SIZE) {
        let off = addr - D1_TCON_LCD0;
        if off == 0x00 {
            s.tcon_gctl
        } else if off == 0x40 {
            s.tcon_ctl
        } else {
            0
        }
    } else {
        0
    }
}

/// State after a 32-bit register write at bus address `addr`: setting bit 0
/// of the DE global control enables or disables the display, setting bit 31
/// of the TCON global control enables it.
pub open spec fn write32_spec(s: DisplayView, addr: u64, v: u32) -> DisplayView {
    if in_window(addr, D1_DE_BASE, D1_DE_SIZE) {
        let off = addr - D1_DE_BASE;
        if off == 0x0000 {
            DisplayView { glb_ctl: v, enabled: v & 1 != 0, ..s }
        } else if off == 0x000C {
            DisplayView { glb_size: v, ..s }
        } else if off == 0x3000 {
            DisplayView { ui_attr: v, ..s }
        } else if off == 0x3004 {
            DisplayView { ui_size: v, ..s }
        } else if off == 0x3008 {
            DisplayView { ui_coord: v, ..s }
        } else if off == 0x300C {
            DisplayView { ui_pitch: v, ..s }
        } else if off == 0x3010 {
            DisplayView { ui_addr: v, ..s }
        } else {
            s
        }
    } else if in_window(addr, D1_TCON_LCD0, D1_TCON_SIZE) {
        let off = addr - D1_TCON_LCD0;
        if off == 0x00 {
            DisplayView { tcon_gctl: v, enabled: if v & 0x8000_0000 != 0 { true } else { s.enabled }, ..s }
        } else if off == 0x40 {
            DisplayView { tcon_ctl: v, ..s }
        } else {
            s
        }
    } else {
        s
    }
}

/// Byte `k` of the RGBA image of ARGB pixels: red, green, blue, alpha.
pub open spec fn rgba_byte(fb: Seq<u32>, k: int) -> u8 {
    let p = fb[k / 4];
    let c = k % 4;
    if c == 0 {
        ((p >> 16u32) & 0xff) as u8
    } else if c == 1 {
        ((p >> 8u32) & 0xff) as u8
    } else if c == 2 {
        (p & 0xff) as u8
    } else {
        ((p >> 24u32) & 0xff) as u8
    }
}

/// Framebuffer read as little-endian words from `memory` at `src`.
pub open spec fn fb_from(memory: Seq<u8>, src: int) -> Seq<u32> {
    Seq::new(FRAMEBUFFER_PIXELS as nat, |i: int| le32_at(memory, src + 4 * i))
}

/// Emulated D1 display engine.
pub struct D1DisplayEmulated {
    framebuffer: Vec<u32>,
    glb_ctl: u32,
    glb_size: u32,
    ui_attr: u32,
    ui_size: u32,
    ui_coord: u32,
    ui_pitch: u32,
    ui_addr: u32,
    tcon_gctl: u32,
    tcon_ctl: u32,
    width: u32,
    height: u32,
    enabled: bool,
}

impl View for D1DisplayEmulated {
    type V = DisplayView;

    closed spec fn view(&self) -> DisplayView {
        DisplayView {
            framebuffer: self.framebuffer@,
            glb_ctl: self.glb_ctl,
            glb_size: self.glb_size,
            ui_attr: self.ui_attr,
            ui_size: self.ui_size,
            ui_coord: self.ui_coord,
            ui_pitch: self.ui_pitch,
            ui_addr: self.ui_addr,
            tcon_gctl: self.tcon_gctl,
            tcon_ctl: self.tcon_ctl,
            width: self.width,
            height: self.height,
            enabled: self.enabled,
        }
    }
}

impl D1DisplayEmulated {
    /// The framebuffer holds one word per pixel of the panel.
    pub open spec fn wf(&self) -> bool {
        self@.framebuffer.len() == FRAMEBUFFER_PIXELS
    }

    /// A disabled 1024x768 display with an opaque black framebuffer.
    pub fn new() -> (r: Self)
        ensures
            r.wf(),
            r@ == (DisplayView {
                framebuffer: Seq::new(FRAMEBUFFER_PIXELS as nat, |i: int| 0xFF00_0000u32),
                glb_ctl: 0,
                glb_size: (((DISPLAY_HEIGHT - 1) as u32) << 16u32) | ((DISPLAY_WIDTH - 1) as u32),
                ui_attr: 0,
                ui_size: (((DISPLAY_HEIGHT - 1) as u32) << 16u32) | ((DISPLAY_WIDTH - 1) as u32),
                ui_coord: 0,
                ui_pitch: 4096,
                ui_addr: 0,
                tcon_gctl: 0,
                tcon_ctl: 0,
                width: DISPLAY_WIDTH,
                height: DISPLAY_HEIGHT,
                enabled: false,
            }),
    {
        let framebuffer: Vec<u32> = vec![0xFF00_0000u32; FRAMEBUFFER_PIXELS];
        let size: u32 = ((DISPLAY_HEIGHT - 1) << 16u32) | (DISPLAY_WIDTH - 1);
        let r = Self {
            framebuffer,
            glb_ctl: 0,
            glb_size: size,
            ui_attr: 0,
            ui_size: size,
            ui_coord: 0,
            ui_pitch: DISPLAY_WIDTH * 4,
            ui_addr: 0,
            tcon_gctl: 0,
            tcon_ctl: 0,
            width: DISPLAY_WIDTH,
            height: DISPLAY_HEIGHT,
            enabled: false,
        };
        proof {
            assert(r@.framebuffer =~= Seq::new(FRAMEBUFFER_PIXELS as nat, |i: int| 0xFF00_0000u32));
        }
        r
    }

    /// The framebuffer (ARGB words, row-major).
    pub fn framebuffer(&self) -> (r: &[u32])
        ensures
            r@ == self@.framebuffer,
    {
        self.framebuffer.as_slice()
    }

    /// The framebuffer as RGBA bytes.
    pub fn framebuffer_bytes(&self) -> (r: Vec<u8>)
        requires
            self.wf(),
        ensures
            r@.len() == 4 * self@.framebuffer.len(),
            forall|k: int| 0 <= k < r@.len() ==> #[trigger] r@[k] == rgba_byte(self@.framebuffer, k),
    {
        let n = self.framebuffer.len();
        let mut bytes: Vec<u8> = Vec::new();
        let mut i: usize = 0;
        while i < n
            invariant
                i <= n,
                n == self@.framebuffer.len(),
                n == FRAMEBUFFER_PIXELS,
                bytes@.len() == 4 * i,
                forall|k: int| 0 <= k < bytes@.len() ==> #[trigger] bytes@[k] == rgba_byte(self@.framebuffer, k),
            decreases n - i,
        {
            let pixel = self.framebuffer[i];
            bytes.push(((pixel >> 16u32) & 0xff) as u8);
            bytes.push(((pixel >> 8u32) & 0xff) as u8);
            bytes.push((pixel & 0xff) as u8);
            bytes.push(((pixel >> 24u32) & 0xff) as u8);
            proof {
                assert forall|k: int| 4 * i <= k < 4 * i + 4 implies #[trigger] bytes@[k] == rgba_byte(self@.framebuffer, k) by {
                    assert(k / 4 == i as int);
                }
            }
            i = i + 1;
        }
        bytes
    }

    pub fn width(&self) -> (r: u32)
        ensures
            r == self@.width,
    {
        self.width
    }

    pub fn height(&self) -> (r: u32)
        ensures
            r == self@.height,
    {
        self.height
    }

    pub fn is_enabled(&self) -> (r: bool)
        ensures
            r == self@.enabled,
    {
        self.enabled
    }

    /// Copy the framebuffer from guest memory at `addr` while the display is
    /// enabled and the whole framebuffer lies inside `memory`.
    pub fn update_framebuffer_from_memory(&mut self, memory: &[u8], addr: u64)
        requires
            old(self).wf(),
            addr as usize + FRAMEBUFFER_SIZE <= usize::MAX,
        ensures
            final(self).wf(),
            old(self)@.enabled && addr as usize + FRAMEBUFFER_SIZE <= memory@.len() ==> final(self)@ == (DisplayView {
                framebuffer: fb_from(memory@, addr as usize as int),
                ..old(self)@
            }),
            !(old(self)@.enabled && addr as usize + FRAMEBUFFER_SIZE <= memory@.len()) ==> final(self)@ == old(self)@,
    {
        if !self.enabled {
            return;
        }
        let src_addr = addr as usize;
        if src_addr + FRAMEBUFFER_SIZE > memory.len() {
            return;
        }
        let n = self.framebuffer.len();
        let mut i: usize = 0;
        while i < n
            invariant
                i <= n,
                n == FRAMEBUFFER_PIXELS,
                self@.framebuffer.len() == n,
                src_addr == addr as usize,
                src_addr + FRAMEBUFFER_SIZE <= memory@.len(),
                src_addr + FRAMEBUFFER_SIZE <= usize::MAX,
                self@ == (DisplayView { framebuffer: self@.framebuffer, ..old(self)@ }),
                forall|k: int| 0 <= k < i ==> #[trigger] self@.framebuffer[k] == le32_at(memory@, src_addr + 4 * k),
            decreases n - i,
        {
            let offset = src_addr + i * 4;
            let pixel = (memory[offset] as u32) | ((memory[offset + 1] as u32) << 8u32)
                | ((memory[offset + 2] as u32) << 16u32) | ((memory[offset + 3] as u32) << 24u32);
            self.framebuffer.set(i, pixel);
            i = i + 1;
        }
        proof {
            assert(self@.framebuffer =~= fb_from(memory@, src_addr as int));
        }
    }

    /// 32-bit register read at bus address `addr`.
    pub fn mmio_read32(&self, addr: u64) -> (r: u32)
        ensures
            r == read32_spec(self@, addr),
    {
        if addr >= D1_DE_BASE && addr < D1_DE_BASE + D1_DE_SIZE {
            let offset = addr - D1_DE_BASE;
            if offset == 0x0000 {
                self.glb_ctl
            } else if offset == 0x000C {
                self.glb_size
            } else if offset == 0x3000 {
                self.ui_attr
            } else if offset == 0x3004 {
                self.ui_size
            } else if offset == 0x3008 {
                self.ui_coord
            } else if offset == 0x300C {
                self.ui_pitch
            } else if offset == 0x3010 {
                self.ui_addr
            } else {
                0
            }
        } else if addr >= D1_TCON_LCD0 && addr < D1_TCON_LCD0 + D1_TCON_SIZE {
            let offset = addr - D1_TCON_LCD0;
            if offset == 0x00 {
                self.tcon_gctl
            } else if offset == 0x40 {
                self.tcon_ctl
            } else {
                0
            }
        } else {
            0
        }
    }

    /// 32-bit register write at bus address `addr`.
    pub fn mmio_write32(&mut self, addr: u64, value: u32)
        ensures
            final(self)@ == write32_spec(old(self)@, addr, value),
    {
        if addr >= D1_DE_BASE && addr < D1_DE_BASE + D1_DE_SIZE {
            let offset = addr - D1_DE_BASE;
            if offset == 0x0000 {
                self.glb_ctl = value;
                self.enabled = (value & 1) != 0;
            } else if offset == 0x000C {
                self.glb_size = value;
            } else if offset == 0x3000 {
                self.ui_attr = value;
            } else if offset == 0x3004 {
                self.ui_size = value;
            } else if offset == 0x3008 {
                self.ui_coord = value;
            } else if offset == 0x300C {
                self.ui_pitch = value;
            } else if offset == 0x3010 {
                self.ui_addr = value;
            }
        } else if addr >= D1_TCON_LCD0 && addr < D1_TCON_LCD0 + D1_TCON_SIZE {
            let offset = addr - D1_TCON_LCD0;
            if offset == 0x00 {
                self.tcon_gctl = value;
                if (value & 0x8000_0000) != 0 {
                    self.enabled = true;
                }
            } else if offset == 0x40 {
                self.tcon_ctl = value;
            }
        }
    }

    /// Byte read: the addressed byte of the enclosing 32-bit register.
    pub fn mmio_read8(&self, addr: u64) -> (r: u8)
        ensures
            r == (read32_spec(self@, (addr - addr % 4) as u64) >> ((addr % 4) * 8) as u32) as u8,
    {
        let word = self.mmio_read32(addr - addr % 4);
        let shift = (addr % 4) * 8;
        (word >> shift as u32) as u8
    }

    /// Byte writes are ignored.
    pub fn mmio_write8(&mut self, _addr: u64, _value: u8)
        ensures
            final(self)@ == old(self)@,
    {
    }
}

impl Default for D1DisplayEmulated {
    fn default() -> (r: Self)
        ensures
            r.wf(),
            r@.enabled == false,
    {
        Self::new()
    }
}

} // verus!
