//! Allwinner D1 SD/MMC host controller (SMHC) backed by a disk image.
//!
//! Commands complete at once; reads fill a 128-word FIFO from one 512-byte
//! sector, writes collect 128 words and store them as one sector.

use vstd::prelude::*;

verus! {

/// MMC0 base address.
pub const D1_MMC0_BASE: u64 = 0x0402_0000;
/// MMC0 window size.
pub const D1_MMC0_SIZE: u64 = 0x1000;

pub const SMHC_CTRL: u64 = 0x00;
pub const SMHC_CLKDIV: u64 = 0x04;
pub const SMHC_TMOUT: u64 = 0x08;
pub const SMHC_CTYPE: u64 = 0x0C;
pub const SMHC_BLKSIZ: u64 = 0x10;
pub const SMHC_BYTCNT: u64 = 0x14;
pub const SMHC_CMD: u64 = 0x18;
pub const SMHC_CMDARG: u64 = 0x1C;
pub const SMHC_RESP0: u64 = 0x20;
pub const SMHC_RESP1: u64 = 0x24;
pub const SMHC_RESP2: u64 = 0x28;
pub const SMHC_RESP3: u64 = 0x2C;
pub const SMHC_INTMASK: u64 = 0x30;
pub const SMHC_MINTSTS: u64 = 0x34;
pub const SMHC_RINTSTS: u64 = 0x38;
pub const SMHC_STATUS: u64 = 0x3C;
pub const SMHC_FIFO: u64 = 0x200;

/// Command register: start bit.
pub const CMD_START: u32 = 0x8000_0000;
/// Command register: clock-update-only bit.
pub const CMD_UPDATE_CLK: u32 = 0x0020_0000;
/// Interrupt status: command done.
pub const INT_CMD_DONE: u32 = 0x4;
/// Interrupt status: data transfer over.
pub const INT_DATA_OVER: u32 = 0x8;
/// Status register: FIFO empty.
pub const STATUS_FIFO_EMPTY: u32 = 0x4;

/// Abstract controller state.
pub struct MmcView {
    pub disk: Seq<u8>,
    pub ctrl: u32,
    pub clkdiv: u32,
    pub blksiz: u32,
    pub bytcnt: u32,
    pub cmd: u32,
    pub cmdarg: u32,
    pub resp: Seq<u32>,
    pub rintsts: u32,
    pub status: u32,
    pub fifo: Seq<u32>,
    pub fifo_pos: nat,
    pub current_sector: u64,
    pub transfer_active: bool,
}

/// Controller invariant.
pub open spec fn mmc_wf(v: MmcView) -> bool {
    &&& v.resp.len() == 4
    &&& v.fifo.len() <= 128
    &&& v.current_sector <= u32::MAX
    &&& v.fifo_pos <= usize::MAX
}

/// Little-endian word from four bytes.
pub open spec fn le_word(b0: u8, b1: u8, b2: u8, b3: u8) -> u32 {
    (b0 as u32) | ((b1 as u32) << 8u32) | ((b2 as u32) << 16u32) | ((b3 as u32) << 24u32)
}

/// Byte `j` (0..4) of a little-endian word.
pub open spec fn word_byte(w: u32, j: int) -> u8 {
    if j == 0 {
        (w & 0xff) as u8
    } else if j == 1 {
        ((w >> 8u32) & 0xff) as u8
    } else if j == 2 {
        ((w >> 16u32) & 0xff) as u8
    } else {
        ((w >> 24u32) & 0xff) as u8
    }
}

/// The 128 words of the sector starting at byte `offset`.
pub open spec fn sector_words(disk: Seq<u8>, offset: int) -> Seq<u32> {
    Seq::new(128, |i: int| le_word(disk[offset + 4 * i], disk[offset + 4 * i + 1], disk[offset + 4 * i + 2], disk[offset + 4 * i + 3]))
}

/// The disk with the sector at byte `offset` replaced by the first 128 words.
pub open spec fn store_sector(disk: Seq<u8>, offset: int, words: Seq<u32>) -> Seq<u8> {
    Seq::new(disk.len(), |k: int| if offset <= k < offset + 512 { word_byte(words[(k - offset) / 4], (k - offset) % 4) } else { disk[k] })
}

/// CSD v2 C_SIZE field for a disk of `len` bytes.
pub open spec fn csd_c_size(len: nat) -> nat {
    if len / 512 / 1024 >= 1 { (len / 512 / 1024 - 1) as nat } else { 0 }
}

/// State after a command with the start bit set; every command completes at once.
pub open spec fn command_spec(v: MmcView, cmd_val: u32) -> MmcView {
    let idx = cmd_val & 0x3F;
    let done = MmcView { rintsts: INT_CMD_DONE, cmd: cmd_val & !CMD_START, ..v };
    if idx == 0 {
        done
    } else if idx == 8 {
        MmcView { resp: v.resp.update(0, v.cmdarg), ..done }
    } else if idx == 41 {
        MmcView { resp: v.resp.update(0, 0xC0FF_8000), ..done }
    } else if idx == 55 {
        MmcView { resp: v.resp.update(0, 0x120), ..done }
    } else if idx == 2 {
        MmcView { resp: seq![0x1234_5678u32, 0x9ABC_DEF0, 0x1122_3344, 0x5566_7788], ..done }
    } else if idx == 3 {
        MmcView { resp: v.resp.update(0, 0x1_0000), ..done }
    } else if idx == 7 {
        MmcView { resp: v.resp.update(0, 0x900), ..done }
    } else if idx == 9 {
        let c = csd_c_size(v.disk.len());
        MmcView { resp: seq![((c as u32) << 16u32) | 0x40_0E00, (c as u32) >> 6u32, 0, 0], ..done }
    } else if idx == 17 || idx == 18 {
        let offset = v.cmdarg as int * 512;
        MmcView {
            current_sector: v.cmdarg as u64,
            fifo: if offset + 512 <= v.disk.len() { sector_words(v.disk, offset) } else { Seq::empty() },
            fifo_pos: 0,
            status: v.status & !STATUS_FIFO_EMPTY,
            transfer_active: true,
            ..done
        }
    } else if idx == 24 || idx == 25 {
        MmcView {
            current_sector: v.cmdarg as u64,
            fifo: Seq::empty(),
            fifo_pos: 0,
            status: v.status | STATUS_FIFO_EMPTY,
            transfer_active: true,
            ..done
        }
    } else {
        MmcView { resp: v.resp.update(0, 0), ..done }
    }
}

/// A FIFO read: the next word, finishing the transfer after the last one.
pub open spec fn fifo_read_spec(v: MmcView) -> (u32, MmcView) {
    if v.fifo_pos < v.fifo.len() {
        let w = v.fifo[v.fifo_pos as int];
        let pos = v.fifo_pos + 1;
        if pos >= v.fifo.len() {
            (w, MmcView {
                fifo_pos: pos,
                rintsts: v.rintsts | INT_DATA_OVER,
                status: v.status | STATUS_FIFO_EMPTY,
                transfer_active: false,
                ..v
            })
        } else {
            (w, MmcView { fifo_pos: pos, ..v })
        }
    } else {
        (0, v)
    }
}

/// A FIFO write: the word is queued; the 128th word stores the sector (when
/// it lies on the disk) and ends the transfer.
pub open spec fn fifo_write_spec(v: MmcView, value: u32) -> MmcView {
    let fifo = v.fifo.push(value);
    if fifo.len() >= 128 {
        let offset = v.current_sector as int * 512;
        MmcView {
            disk: if offset + 512 <= v.disk.len() { store_sector(v.disk, offset, fifo) } else { v.disk },
            rintsts: v.rintsts | INT_DATA_OVER,
            transfer_active: false,
            fifo: Seq::empty(),
            ..v
        }
    } else {
        MmcView { fifo, ..v }
    }
}

/// Value and state of a 32-bit register read at window offset `offset`.
pub open spec fn read_spec(v: MmcView, offset: u64) -> (u32, MmcView) {
    if offset == SMHC_CTRL {
        (v.ctrl, v)
    } else if offset == SMHC_CLKDIV {
        (v.clkdiv, v)
    } else if offset == SMHC_BLKSIZ {
        (v.blksiz, v)
    } else if offset == SMHC_BYTCNT {
        (v.bytcnt, v)
    } else if offset == SMHC_CMD {
        (v.cmd, v)
    } else if offset == SMHC_CMDARG {
        (v.cmdarg, v)
    } else if offset == SMHC_RESP0 {
        (v.resp[0], v)
    } else if offset == SMHC_RESP1 {
        (v.resp[1], v)
    } else if offset == SMHC_RESP2 {
        (v.resp[2], v)
    } else if offset == SMHC_RESP3 {
        (v.resp[3], v)
    } else if offset == SMHC_RINTSTS {
        (v.rintsts, v)
    } else if offset == SMHC_STATUS {
        (v.status, v)
    } else if offset == SMHC_FIFO {
        fifo_read_spec(v)
    } else {
        (0, v)
    }
}

/// State after a 32-bit register write at window offset `offset`.
pub open spec fn write_spec(v: MmcView, offset: u64, value: u32) -> MmcView {
    if offset == SMHC_CTRL {
        MmcView { ctrl: value & !7u32, ..v }
    } else if offset == SMHC_CLKDIV {
        MmcView { clkdiv: value, ..v }
    } else if offset == SMHC_BLKSIZ {
        MmcView { blksiz: value, ..v }
    } else if offset == SMHC_BYTCNT {
        MmcView { bytcnt: value, ..v }
    } else if offset == SMHC_CMD {
        if value & CMD_UPDATE_CLK != 0 {
            MmcView { cmd: value & !CMD_START, ..v }
        } else if value & CMD_START != 0 {
            command_spec(v, value)
        } else {
            v
        }
    } else if offset == SMHC_CMDARG {
        MmcView { cmdarg: value, ..v }
    } else if offset == SMHC_RINTSTS {
        MmcView { rintsts: v.rintsts & !value, ..v }
    } else if offset == SMHC_FIFO {
        fifo_write_spec(v, value)
    } else {
        v
    }
}

/// Emulated D1 MMC controller.
pub struct D1MmcEmulated {
    disk: Vec<u8>,
    ctrl: u32,
    clkdiv: u32,
    blksiz: u32,
    bytcnt: u32,
    cmd: u32,
    cmdarg: u32,
    resp: [u32; 4],
    rintsts: u32,
    status: u32,
    fifo: Vec<u32>,
    fifo_pos: usize,
    current_sector: u64,
    transfer_active: bool,
}

impl View for D1MmcEmulated {
    type V = MmcView;

    closed spec fn view(&self) -> MmcView {
        MmcView {
            disk: self.disk@,
            ctrl: self.ctrl,
            clkdiv: self.clkdiv,
            blksiz: self.blksiz,
            bytcnt: self.bytcnt,
            cmd: self.cmd,
            cmdarg: self.cmdarg,
            resp: self.resp@,
            rintsts: self.rintsts,
            status: self.status,
            fifo: self.fifo@,
            fifo_pos: self.fifo_pos as nat,
            current_sector: self.current_sector,
            transfer_active: self.transfer_active,
        }
    }
}

/// A reset controller over a disk image.
pub open spec fn reset_view(disk: Seq<u8>) -> MmcView {
    MmcView {
        disk,
        ctrl: 0,
        clkdiv: 0,
        blksiz: 512,
        bytcnt: 0,
        cmd: 0,
        cmdarg: 0,
        resp: seq![0u32, 0, 0, 0],
        rintsts: 0,
        status: STATUS_FIFO_EMPTY,
        fifo: Seq::empty(),
        fifo_pos: 0,
        current_sector: 0,
        transfer_active: false,
    }
}

impl D1MmcEmulated {
    /// Well-formedness of the controller.
    pub open spec fn wf(&self) -> bool {
        mmc_wf(self@)
    }

    /// A reset controller over `disk_image`.
    pub fn new(disk_image: Vec<u8>) -> (r: Self)
        ensures
            r.wf(),
            r@ == reset_view(disk_image@),
    {
        let r = Self {
            disk: disk_image,
            ctrl: 0,
            clkdiv: 0,
            blksiz: 512,
            bytcnt: 0,
            cmd: 0,
            cmdarg: 0,
            resp: [0u32; 4],
            rintsts: 0,
            status: STATUS_FIFO_EMPTY,
            fifo: Vec::new(),
            fifo_pos: 0,
            current_sector: 0,
            transfer_active: false,
        };
        proof {
            assert(r@.resp =~= seq![0u32, 0, 0, 0]);
            assert(r@.fifo =~= Seq::<u32>::empty());
        }
        r
    }

    /// A reset controller over a disk the host hands over.
    pub fn with_disk(disk: Vec<u8>) -> (r: Self)
        ensures
            r.wf(),
            r@ == reset_view(disk@),
    {
        Self::new(disk)
    }

    /// The disk image as the controller holds it.
    pub fn disk(&self) -> (r: &[u8])
        ensures
            r@ == self@.disk,
    {
        self.disk.as_slice()
    }

    /// Load the sector at byte `offset` into the FIFO, or leave it empty when
    /// the sector does not lie on the disk.
    fn fill_fifo_from_sector(&mut self, offset: u64)
        requires
            old(self).fifo@.len() == 0,
        ensures
            final(self)@ == (MmcView {
                fifo: if offset + 512 <= old(self)@.disk.len() { sector_words(old(self)@.disk, offset as int) } else { Seq::empty() },
                ..old(self)@
            }),
    {
        if offset <= self.disk.len() as u64 && 512 <= self.disk.len() as u64 - offset {
            let base = offset as usize;
            let mut i: usize = 0;
            while i < 128
                invariant
                    i <= 128,
                    base + 512 <= self.disk@.len(),
                    self.disk@.len() <= usize::MAX,
                    base == offset,
                    self.disk@ == old(self).disk@,
                    self.fifo@ == sector_words(self.disk@, base as int).subrange(0, i as int),
                    self.ctrl == old(self).ctrl,
                    self.clkdiv == old(self).clkdiv,
                    self.blksiz == old(self).blksiz,
                    self.bytcnt == old(self).bytcnt,
                    self.cmd == old(self).cmd,
                    self.cmdarg == old(self).cmdarg,
                    self.resp == old(self).resp,
                    self.rintsts == old(self).rintsts,
                    self.status == old(self).status,
                    self.fifo_pos == old(self).fifo_pos,
                    self.current_sector == old(self).current_sector,
                    self.transfer_active == old(self).transfer_active,
                decreases 128 - i,
            {
                let o = base + 4 * i;
                let word = (self.disk[o] as u32) | ((self.disk[o + 1] as u32) << 8u32)
                    | ((self.disk[o + 2] as u32) << 16u32) | ((self.disk[o + 3] as u32) << 24u32);
                self.fifo.push(word);
                proof {
                    assert(self.fifo@ =~= sector_words(self.disk@, base as int).subrange(0, i + 1));
                }
                i = i + 1;
            }
            proof {
                assert(self.fifo@ =~= sector_words(self.disk@, base as int));
            }
        } else {
            proof {
                assert(self.fifo@ =~= Seq::<u32>::empty());
            }
        }
    }

    /// Execute a command: the response and interrupt status are set at once;
    /// block reads fill the FIFO from the disk and block writes open the FIFO.
    fn handle_command(&mut self, cmd_val: u32)
        requires
            old(self).wf(),
        ensures
            final(self).wf(),
            final(self)@ == command_spec(old(self)@, cmd_val),
    {
        let cmd_idx = cmd_val & 0x3F;
        self.rintsts = INT_CMD_DONE;
        if cmd_idx == 0 {
        } else if cmd_idx == 8 {
            self.resp[0] = self.cmdarg;
        } else if cmd_idx == 41 {
            self.resp[0] = 0xC0FF_8000;
        } else if cmd_idx == 55 {
            self.resp[0] = 0x120;
        } else if cmd_idx == 2 {
            self.resp[0] = 0x1234_5678;
            self.resp[1] = 0x9ABC_DEF0;
            self.resp[2] = 0x1122_3344;
            self.resp[3] = 0x5566_7788;
        } else if cmd_idx == 3 {
            self.resp[0] = 0x1_0000;
        } else if cmd_idx == 7 {
            self.resp[0] = 0x900;
        } else if cmd_idx == 9 {
            let sectors = self.disk.len() / 512;
            let c_size = (sectors / 1024).saturating_sub(1);
            self.resp[0] = ((c_size as u32) << 16u32) | 0x40_0E00;
            self.resp[1] = (c_size as u32) >> 6u32;
            self.resp[2] = 0;
            self.resp[3] = 0;
        } else if cmd_idx == 17 || cmd_idx == 18 {
            let sector = self.cmdarg as u64;
            self.current_sector = sector;
            self.fifo.clear();
            self.fifo_pos = 0;
            self.fill_fifo_from_sector(sector * 512);
            self.status = self.status & !STATUS_FIFO_EMPTY;
            self.transfer_active = true;
        } else if cmd_idx == 24 || cmd_idx == 25 {
            let sector = self.cmdarg as u64;
            self.current_sector = sector;
            self.fifo.clear();
            self.fifo_pos = 0;
            self.transfer_active = true;
            self.status = self.status | STATUS_FIFO_EMPTY;
        } else {
            self.resp[0] = 0;
        }
        self.cmd = cmd_val & !CMD_START;
        proof {
            if cmd_idx == 2 || cmd_idx == 9 {
                assert(self@.resp =~= command_spec(old(self)@, cmd_val).resp);
            }
            if cmd_idx == 24 || cmd_idx == 25 {
                assert(self@.fifo =~= Seq::<u32>::empty());
            }
        }
    }

    fn fifo_read(&mut self) -> (r: u32)
        requires
            old(self).wf(),
        ensures
            final(self).wf(),
            (r, final(self)@) == fifo_read_spec(old(self)@),
    {
        if self.fifo_pos < self.fifo.len() {
            let word = self.fifo[self.fifo_pos];
            self.fifo_pos = self.fifo_pos + 1;
            if self.fifo_pos >= self.fifo.len() {
                self.rintsts = self.rintsts | INT_DATA_OVER;
                self.status = self.status | STATUS_FIFO_EMPTY;
                self.transfer_active = false;
            }
            word
        } else {
            0
        }
    }

    /// Store the first 128 FIFO words as the sector at byte `offset`.
    fn store_fifo_to_sector(&mut self, base: usize)
        requires
            old(self).fifo@.len() >= 128,
            base + 512 <= old(self).disk@.len(),
        ensures
            final(self)@ == (MmcView { disk: store_sector(old(self)@.disk, base as int, old(self)@.fifo), ..old(self)@ }),
    {
        let ghost d0 = self.disk@;
        let n = self.disk.len();
        let mut i: usize = 0;
        while i < 128
            invariant
                i <= 128,
                base + 512 <= d0.len(),
                d0.len() == n,
                self.fifo@ == old(self).fifo@,
                self.fifo@.len() >= 128,
                self.disk@.len() == d0.len(),
                forall|k: int| 0 <= k < d0.len() && !(base <= k < base + 4 * i) ==> self.disk@[k] == d0[k],
                forall|k: int| base <= k < base + 4 * i ==> self.disk@[k] == word_byte(self.fifo@[(k - base) / 4], (k - base) % 4),
                self.ctrl == old(self).ctrl,
                self.clkdiv == old(self).clkdiv,
                self.blksiz == old(self).blksiz,
                self.bytcnt == old(self).bytcnt,
                self.cmd == old(self).cmd,
                self.cmdarg == old(self).cmdarg,
                self.resp == old(self).resp,
                self.rintsts == old(self).rintsts,
                self.status == old(self).status,
                self.fifo_pos == old(self).fifo_pos,
                self.current_sector == old(self).current_sector,
                self.transfer_active == old(self).transfer_active,
            decreases 128 - i,
        {
            let word = self.fifo[i];
            let o = base + 4 * i;
            self.disk.set(o, (word & 0xff) as u8);
            self.disk.set(o + 1, ((word >> 8u32) & 0xff) as u8);
            self.disk.set(o + 2, ((word >> 16u32) & 0xff) as u8);
            self.disk.set(o + 3, ((word >> 24u32) & 0xff) as u8);
            proof {
                assert forall|k: int| base <= k < base + 4 * (i + 1) implies self.disk@[k] == word_byte(self.fifo@[(k - base) / 4], (k - base) % 4) by {
                    if k >= o {
                        assert((k - base) / 4 == i as int);
                        assert((k - base) % 4 == k - o);
                    }
                }
            }
            i = i + 1;
        }
        proof {
            assert(self.disk@ =~= store_sector(d0, base as int, old(self)@.fifo));
        }
    }

    fn fifo_write(&mut self, value: u32)
        requires
            old(self).wf(),
        ensures
            final(self).wf(),
            final(self)@ == fifo_write_spec(old(self)@, value),
    {
        self.fifo.push(value);
        if self.fifo.len() >= 128 {
            let offset = self.current_sector * 512;
            if offset <= self.disk.len() as u64 && 512 <= self.disk.len() as u64 - offset {
                self.store_fifo_to_sector(offset as usize);
            }
            self.rintsts = self.rintsts | INT_DATA_OVER;
            self.transfer_active = false;
            self.fifo.clear();
        }
    }

    /// 32-bit register read; a FIFO read pops the next data word.
    pub fn mmio_read32(&mut self, addr: u64) -> (r: u32)
        requires
            old(self).wf(),
        ensures
            final(self).wf(),
            (r, final(self)@) == read_spec(old(self)@, addr & 0xFFF),
    {
        let offset = addr & 0xFFF;
        if offset == SMHC_CTRL {
            self.ctrl
        } else if offset == SMHC_CLKDIV {
            self.clkdiv
        } else if offset == SMHC_BLKSIZ {
            self.blksiz
        } else if offset == SMHC_BYTCNT {
            self.bytcnt
        } else if offset == SMHC_CMD {
            self.cmd
        } else if offset == SMHC_CMDARG {
            self.cmdarg
        } else if offset == SMHC_RESP0 {
            self.resp[0]
        } else if offset == SMHC_RESP1 {
            self.resp[1]
        } else if offset == SMHC_RESP2 {
            self.resp[2]
        } else if offset == SMHC_RESP3 {
            self.resp[3]
        } else if offset == SMHC_RINTSTS {
            self.rintsts
        } else if offset == SMHC_STATUS {
            self.status
        } else if offset == SMHC_FIFO {
            self.fifo_read()
        } else {
            0
        }
    }

    /// 32-bit register write. Control reset bits clear at once, a
    /// clock-update command is acknowledged, a started command executes,
    /// interrupt status is write-one-to-clear and FIFO writes collect a sector.
    pub fn mmio_write32(&mut self, addr: u64, value: u32)
        requires
            old(self).wf(),
        ensures
            final(self).wf(),
            final(self)@ == write_spec(old(self)@, addr & 0xFFF, value),
    {
        let offset = addr & 0xFFF;
        if offset == SMHC_CTRL {
            self.ctrl = value & !7u32;
        } else if offset == SMHC_CLKDIV {
            self.clkdiv = value;
        } else if offset == SMHC_BLKSIZ {
            self.blksiz = value;
        } else if offset == SMHC_BYTCNT {
            self.bytcnt = value;
        } else if offset == SMHC_CMD {
            if value & CMD_UPDATE_CLK != 0 {
                self.cmd = value & !CMD_START;
            } else if value & CMD_START != 0 {
                self.handle_command(value);
            }
        } else if offset == SMHC_CMDARG {
            self.cmdarg = value;
        } else if offset == SMHC_RINTSTS {
            self.rintsts = self.rintsts & !value;
        } else if offset == SMHC_FIFO {
            self.fifo_write(value);
        }
    }

    /// Byte read: the addressed byte of the containing word's read.
    pub fn mmio_read8(&mut self, addr: u64) -> (r: u8)
        requires
            old(self).wf(),
        ensures
            final(self).wf(),
            ({
                let (w, v) = read_spec(old(self)@, (addr & !3u64) & 0xFFF);
                r == (w >> ((addr & 3) * 8) as u32) as u8 && final(self)@ == v
            }),
    {
        let word = self.mmio_read32(addr & !3u64);
        assert(addr & 3 <= 3) by (bit_vector);
        let shift = (addr & 3) * 8;
        (word >> shift as u32) as u8
    }

    /// Byte writes are ignored.
    pub fn mmio_write8(&mut self, _addr: u64, _value: u8)
        ensures
            final(self)@ == old(self)@,
    {
    }
}

/// Reading back a written sector gives the words written: storing 128 words
/// and then loading the same sector yields exactly those words.
pub proof fn lemma_sector_store_load(disk: Seq<u8>, offset: int, words: Seq<u32>)
    requires
        0 <= offset,
        offset + 512 <= disk.len(),
        words.len() == 128,
    ensures
        sector_words(store_sector(disk, offset, words), offset) == words,
{
    let d = store_sector(disk, offset, words);
    assert forall|i: int| 0 <= i < 128 implies #[trigger] sector_words(d, offset)[i] == words[i] by {
        let w = words[i];
        assert((4 * i) / 4 == i && (4 * i) % 4 == 0);
        assert((4 * i + 1) / 4 == i && (4 * i + 1) % 4 == 1);
        assert((4 * i + 2) / 4 == i && (4 * i + 2) % 4 == 2);
        assert((4 * i + 3) / 4 == i && (4 * i + 3) % 4 == 3);
        assert(d[offset + 4 * i] == word_byte(w, 0));
        assert(d[offset + 4 * i + 1] == word_byte(w, 1));
        assert(d[offset + 4 * i + 2] == word_byte(w, 2));
        assert(d[offset + 4 * i + 3] == word_byte(w, 3));
        lemma_le_word_bytes(w);
    }
    assert(sector_words(d, offset) =~= words);
}

/// Splitting a word into its little-endian bytes and joining them gives it back.
pub proof fn lemma_le_word_bytes(w: u32)
    ensures
        le_word(word_byte(w, 0), word_byte(w, 1), word_byte(w, 2), word_byte(w, 3)) == w,
{
    assert((((w & 0xff) as u8) as u32) | (((((w >> 8u32) & 0xff) as u8) as u32) << 8u32)
        | (((((w >> 16u32) & 0xff) as u8) as u32) << 16u32) | (((((w >> 24u32) & 0xff) as u8) as u32) << 24u32) == w) by (bit_vector);
}

/// Sector writes touch only the addressed sector.
pub proof fn lemma_store_sector_frame(disk: Seq<u8>, offset: int, words: Seq<u32>, k: int)
    requires
        0 <= k < disk.len(),
        !(offset <= k < offset + 512),
    ensures
        store_sector(disk, offset, words)[k] == disk[k],
        store_sector(disk, offset, words).len() == disk.len(),
{
}

} // verus!
