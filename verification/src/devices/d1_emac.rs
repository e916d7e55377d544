//! Allwinner D1 EMAC (DWMAC-style Ethernet MAC) with an emulated PHY.
//!
//! Packets move between guest DRAM and host-side queues through one DMA
//! descriptor per direction per poll.

use vstd::prelude::*;
use crate::dram::{Dram, DramView, DRAM_BASE, fits, word32, with_word, write_slice};

verus! {

/// EMAC base address.
pub const D1_EMAC_BASE: u64 = 0x0450_0000;
/// EMAC window size.
pub const D1_EMAC_SIZE: u64 = 0x1000;

/// Descriptor status: owned by DMA.
pub const DESC_OWN: u32 = 0x8000_0000;
/// Descriptor status: last segment.
pub const DESC_LAST: u32 = 0x4000_0000;
/// Descriptor status: first segment.
pub const DESC_FIRST: u32 = 0x2000_0000;
/// Interrupt status: receive complete.
pub const INT_RX_DONE: u32 = 0x100;
/// Largest frame taken from a transmit descriptor.
pub const MAX_TX_FRAME: u32 = 2048;

/// The byte contents of a queue of frames.
pub open spec fn packets_view(q: Seq<Vec<u8>>) -> Seq<Seq<u8>> {
    q.map_values(|p: Vec<u8>| p@)
}

/// Abstract controller state.
pub struct EmacView {
    pub basic_ctl0: u32,
    pub basic_ctl1: u32,
    pub int_sta: u32,
    pub int_en: u32,
    pub tx_ctl0: u32,
    pub tx_ctl1: u32,
    pub rx_ctl0: u32,
    pub rx_ctl1: u32,
    pub tx_dma_desc: u32,
    pub rx_dma_desc: u32,
    pub mii_cmd: u32,
    pub mii_data: u32,
    pub addr_high: u32,
    pub addr_low: u32,
    pub phy_bmcr: u32,
    pub phy_bmsr: u32,
    pub mac_addr: Seq<u8>,
    /// Frames sent by the guest, oldest first.
    pub tx: Seq<Seq<u8>>,
    /// Frames waiting for the guest, oldest first.
    pub rx: Seq<Seq<u8>>,
    pub assigned_ip: Option<[u8; 4]>,
}

/// Transmit DMA is on: TX_CTL0 bit 31 and TX_CTL1 bit 30.
pub open spec fn tx_enabled(v: EmacView) -> bool {
    v.tx_ctl0 & 0x8000_0000 != 0 && v.tx_ctl1 & 0x4000_0000 != 0
}

/// Receive DMA is on: RX_CTL0 bit 31 and RX_CTL1 bit 30.
pub open spec fn rx_enabled(v: EmacView) -> bool {
    v.rx_ctl0 & 0x8000_0000 != 0 && v.rx_ctl1 & 0x4000_0000 != 0
}

/// DRAM after a 32-bit store that is dropped when out of bounds.
pub open spec fn store32_or_skip(d: DramView, off: u64, value: u32) -> DramView {
    if fits(off, 4, d.data.len()) { with_word(d, off, value as u64, 4) } else { d }
}

/// One transmit poll: a DMA-owned descriptor hands its frame (when it has
/// one of 1..=2048 bytes in DRAM) to the host queue, is returned to the
/// driver and the ring advances when the next pointer is in DRAM.
pub open spec fn tx_poll(v: EmacView, d: DramView) -> (EmacView, DramView) {
    if !(tx_enabled(v) && v.tx_dma_desc != 0 && v.tx_dma_desc >= DRAM_BASE) {
        (v, d)
    } else {
        let off = (v.tx_dma_desc - DRAM_BASE) as u64;
        let status = word32(d, off);
        if status & DESC_OWN == 0 {
            (v, d)
        } else {
            let size = word32(d, (off + 4) as u64);
            let buf = word32(d, (off + 8) as u64);
            let next = word32(d, (off + 12) as u64);
            let len = size & 0xFFFF;
            let buf_off = (buf - DRAM_BASE) as u64;
            let sends = buf >= DRAM_BASE && len > 0 && len <= MAX_TX_FRAME && fits(buf_off, len as nat, d.data.len());
            (EmacView {
                tx: if sends { v.tx.push(d.data.subrange(buf_off as int, buf_off + len)) } else { v.tx },
                tx_dma_desc: if next >= DRAM_BASE { next } else { v.tx_dma_desc },
                ..v
            }, store32_or_skip(d, off, status & !DESC_OWN))
        }
    }
}

/// One receive poll: a DMA-owned descriptor takes the oldest queued frame;
/// as much of it as the buffer holds is copied to DRAM, the descriptor is
/// completed, the receive interrupt raised and the ring advanced.
pub open spec fn rx_poll(v: EmacView, d: DramView) -> (EmacView, DramView) {
    if !(rx_enabled(v) && v.rx_dma_desc != 0 && v.rx_dma_desc >= DRAM_BASE) {
        (v, d)
    } else {
        let off = (v.rx_dma_desc - DRAM_BASE) as u64;
        let status = word32(d, off);
        if status & DESC_OWN == 0 || v.rx.len() == 0 {
            (v, d)
        } else {
            let packet = v.rx[0];
            let v1 = EmacView { rx: v.rx.drop_first(), ..v };
            let size = word32(d, (off + 4) as u64);
            let buf = word32(d, (off + 8) as u64);
            let next = word32(d, (off + 12) as u64);
            let buf_size = (size >> 16u32) & 0x1FFF;
            let len: nat = if packet.len() < buf_size { packet.len() } else { buf_size as nat };
            if buf >= DRAM_BASE && len > 0 {
                let buf_off = (buf - DRAM_BASE) as u64;
                let d1 = DramView { data: write_slice(d.data, buf_off as int, packet.take(len as int)), ..d };
                (EmacView {
                    int_sta: v.int_sta | INT_RX_DONE,
                    rx_dma_desc: if next >= DRAM_BASE { next } else { v.rx_dma_desc },
                    ..v1
                }, store32_or_skip(d1, off, DESC_FIRST | DESC_LAST | ((len as u32) << 16u32)))
            } else {
                (v1, d)
            }
        }
    }
}

/// PHY register contents for an MII read.
pub open spec fn phy_read(v: EmacView, reg: u32) -> u32 {
    if reg == 0 {
        v.phy_bmcr
    } else if reg == 1 {
        v.phy_bmsr
    } else if reg == 2 {
        0x001C
    } else if reg == 3 {
        0xC816
    } else if reg == 4 {
        0x01E1
    } else if reg == 5 {
        0x45E1
    } else {
        0xFFFF
    }
}

/// An MII command: a write to register 0 sets BMCR; a read fills MII_DATA;
/// the busy bit clears.
pub open spec fn mii_spec(v: EmacView) -> EmacView {
    let reg = (v.mii_cmd >> 4u32) & 0x1F;
    let is_write = v.mii_cmd & 2 == 0;
    let v1 = if is_write {
        if reg == 0 { EmacView { phy_bmcr: v.mii_data, ..v } } else { v }
    } else {
        EmacView { mii_data: phy_read(v, reg), ..v }
    };
    EmacView { mii_cmd: v1.mii_cmd & !1u32, ..v1 }
}

/// The assigned IP as a big-endian word, or 0.
pub open spec fn ip_word(ip: Option<[u8; 4]>) -> u32 {
    match ip {
        Some(a) => ((a[0] as u32) << 24u32) | ((a[1] as u32) << 16u32) | ((a[2] as u32) << 8u32) | (a[3] as u32),
        None => 0,
    }
}

/// Value of a 32-bit register read at window offset `offset`.
pub open spec fn read_spec(v: EmacView, offset: u64) -> u32 {
    if offset == 0x00 {
        v.basic_ctl0
    } else if offset == 0x04 {
        v.basic_ctl1
    } else if offset == 0x08 {
        v.int_sta
    } else if offset == 0x0C {
        v.int_en
    } else if offset == 0x10 {
        v.tx_ctl0
    } else if offset == 0x14 {
        v.tx_ctl1
    } else if offset == 0x20 {
        v.tx_dma_desc
    } else if offset == 0x24 {
        v.rx_ctl0
    } else if offset == 0x28 {
        v.rx_ctl1
    } else if offset == 0x34 {
        v.rx_dma_desc
    } else if offset == 0x48 {
        v.mii_cmd
    } else if offset == 0x4C {
        v.mii_data
    } else if offset == 0x50 {
        v.addr_high
    } else if offset == 0x54 {
        v.addr_low
    } else if offset == 0xC0 {
        if v.rx.len() > 0 { 1 } else { 0 }
    } else if offset == 0x100 {
        ip_word(v.assigned_ip)
    } else {
        0
    }
}

/// State after a 32-bit register write at window offset `offset`.
pub open spec fn write_spec(v: EmacView, offset: u64, value: u32) -> EmacView {
    if offset == 0x00 {
        EmacView { basic_ctl0: value, ..v }
    } else if offset == 0x04 {
        EmacView { basic_ctl1: if value & 1 != 0 { value & !1u32 } else { value }, ..v }
    } else if offset == 0x08 {
        EmacView { int_sta: v.int_sta & !value, ..v }
    } else if offset == 0x0C {
        EmacView { int_en: value, ..v }
    } else if offset == 0x10 {
        EmacView { tx_ctl0: value, ..v }
    } else if offset == 0x14 {
        EmacView { tx_ctl1: value, ..v }
    } else if offset == 0x20 {
        EmacView { tx_dma_desc: value, ..v }
    } else if offset == 0x24 {
        EmacView { rx_ctl0: value, ..v }
    } else if offset == 0x28 {
        EmacView { rx_ctl1: value, ..v }
    } else if offset == 0x34 {
        EmacView { rx_dma_desc: value, ..v }
    } else if offset == 0x48 {
        let v1 = EmacView { mii_cmd: value, ..v };
        if value & 1 != 0 { mii_spec(v1) } else { v1 }
    } else if offset == 0x4C {
        EmacView { mii_data: value, ..v }
    } else if offset == 0x50 {
        EmacView { addr_high: value, ..v }
    } else if offset == 0x54 {
        EmacView { addr_low: value, ..v }
    } else {
        v
    }
}

/// Emulated D1 EMAC controller.
pub struct D1EmacEmulated {
    basic_ctl0: u32,
    basic_ctl1: u32,
    int_sta: u32,
    int_en: u32,
    tx_ctl0: u32,
    tx_ctl1: u32,
    rx_ctl0: u32,
    rx_ctl1: u32,
    tx_dma_desc: u32,
    rx_dma_desc: u32,
    mii_cmd: u32,
    mii_data: u32,
    addr_high: u32,
    addr_low: u32,
    phy_bmcr: u32,
    phy_bmsr: u32,
    mac_addr: [u8; 6],
    tx_queue: Vec<Vec<u8>>,
    rx_queue: Vec<Vec<u8>>,
    assigned_ip: Option<[u8; 4]>,
}

impl View for D1EmacEmulated {
    type V = EmacView;

    closed spec fn view(&self) -> EmacView {
        EmacView {
            basic_ctl0: self.basic_ctl0,
            basic_ctl1: self.basic_ctl1,
            int_sta: self.int_sta,
            int_en: self.int_en,
            tx_ctl0: self.tx_ctl0,
            tx_ctl1: self.tx_ctl1,
            rx_ctl0: self.rx_ctl0,
            rx_ctl1: self.rx_ctl1,
            tx_dma_desc: self.tx_dma_desc,
            rx_dma_desc: self.rx_dma_desc,
            mii_cmd: self.mii_cmd,
            mii_data: self.mii_data,
            addr_high: self.addr_high,
            addr_low: self.addr_low,
            phy_bmcr: self.phy_bmcr,
            phy_bmsr: self.phy_bmsr,
            mac_addr: self.mac_addr@,
            tx: packets_view(self.tx_queue@),
            rx: packets_view(self.rx_queue@),
            assigned_ip: self.assigned_ip,
        }
    }
}

/// A 32-bit DRAM word, or 0 when out of bounds.
fn load32_or_zero(dram: &Dram, off: u64) -> (r: u32)
    ensures
        r == word32(dram@, off),
{
    match dram.load_32(off) {
        Ok(v) => v,
        Err(_) => 0,
    }
}

fn copy_bytes(src: &Vec<u8>) -> (r: Vec<u8>)
    ensures
        r@ == src@,
{
    let mut out: Vec<u8> = Vec::new();
    let mut i: usize = 0;
    while i < src.len()
        invariant
            i <= src@.len(),
            out@ == src@.subrange(0, i as int),
        decreases src@.len() - i,
    {
        out.push(src[i]);
        proof {
            assert(out@ =~= src@.subrange(0, i + 1));
        }
        i = i + 1;
    }
    proof {
        assert(out@ =~= src@);
    }
    out
}

fn copy_packets(src: &Vec<Vec<u8>>) -> (r: Vec<Vec<u8>>)
    ensures
        packets_view(r@) == packets_view(src@),
{
    let mut out: Vec<Vec<u8>> = Vec::new();
    let mut i: usize = 0;
    while i < src.len()
        invariant
            i <= src@.len(),
            packets_view(out@) == packets_view(src@).subrange(0, i as int),
        decreases src@.len() - i,
    {
        let ghost prev = out@;
        let c = copy_bytes(&src[i]);
        out.push(c);
        proof {
            assert(packets_view(out@) =~= packets_view(prev).push(c@));
            assert(packets_view(src@)[i as int] == src@[i as int]@);
            assert(packets_view(out@) =~= packets_view(src@).subrange(0, i + 1));
        }
        i = i + 1;
    }
    proof {
        assert(packets_view(out@) =~= packets_view(src@));
    }
    out
}

/// Power-on state with the given MAC address registers.
pub open spec fn reset_view(mac: Seq<u8>, addr_high: u32, addr_low: u32) -> EmacView {
    EmacView {
        basic_ctl0: 0,
        basic_ctl1: 0,
        int_sta: 0,
        int_en: 0,
        tx_ctl0: 0,
        tx_ctl1: 0,
        rx_ctl0: 0,
        rx_ctl1: 0,
        tx_dma_desc: 0,
        rx_dma_desc: 0,
        mii_cmd: 0,
        mii_data: 0,
        addr_high,
        addr_low,
        phy_bmcr: 0x1000,
        phy_bmsr: 0x786D,
        mac_addr: mac,
        tx: Seq::empty(),
        rx: Seq::empty(),
        assigned_ip: None,
    }
}

impl D1EmacEmulated {
    /// Power-on controller with MAC 02:00:00:00:00:01, link up, no packets.
    pub fn new() -> (r: Self)
        ensures
            r@ == reset_view(seq![0x02u8, 0x00, 0x00, 0x00, 0x00, 0x01], 0, 0),
    {
        let r = Self {
            basic_ctl0: 0,
            basic_ctl1: 0,
            int_sta: 0,
            int_en: 0,
            tx_ctl0: 0,
            tx_ctl1: 0,
            rx_ctl0: 0,
            rx_ctl1: 0,
            tx_dma_desc: 0,
            rx_dma_desc: 0,
            mii_cmd: 0,
            mii_data: 0,
            addr_high: 0,
            addr_low: 0,
            phy_bmcr: 0x1000,
            phy_bmsr: 0x786D,
            mac_addr: [0x02, 0x00, 0x00, 0x00, 0x00, 0x01],
            tx_queue: Vec::new(),
            rx_queue: Vec::new(),
            assigned_ip: None,
        };
        proof {
            assert(r@.mac_addr =~= seq![0x02u8, 0x00, 0x00, 0x00, 0x00, 0x01]);
            assert(r@.tx =~= Seq::<Seq<u8>>::empty());
            assert(r@.rx =~= Seq::<Seq<u8>>::empty());
        }
        r
    }

    /// Power-on controller whose address registers hold `mac`
    /// (low: bytes 0..4, high: bytes 4..6, little-endian).
    pub fn with_mac(mac: [u8; 6]) -> (r: Self)
        ensures
            r@ == reset_view(mac@,
                (mac[4] as u32) | ((mac[5] as u32) << 8u32),
                (mac[0] as u32) | ((mac[1] as u32) << 8u32) | ((mac[2] as u32) << 16u32) | ((mac[3] as u32) << 24u32)),
    {
        let mut emac = Self::new();
        emac.mac_addr = mac;
        emac.addr_low = (mac[0] as u32) | ((mac[1] as u32) << 8u32) | ((mac[2] as u32) << 16u32) | ((mac[3] as u32) << 24u32);
        emac.addr_high = (mac[4] as u32) | ((mac[5] as u32) << 8u32);
        emac
    }

    /// Copy of the frames waiting to be sent.
    pub fn tx_queue(&self) -> (r: Vec<Vec<u8>>)
        ensures
            packets_view(r@) == self@.tx,
    {
        copy_packets(&self.tx_queue)
    }

    /// Copy of the frames waiting to be received.
    pub fn rx_queue(&self) -> (r: Vec<Vec<u8>>)
        ensures
            packets_view(r@) == self@.rx,
    {
        copy_packets(&self.rx_queue)
    }

    /// Queue a frame for the guest.
    pub fn queue_rx_packet(&mut self, packet: Vec<u8>)
        ensures
            final(self)@ == (EmacView { rx: old(self)@.rx.push(packet@), ..old(self)@ }),
    {
        self.rx_queue.push(packet);
        proof {
            assert(self@.rx =~= old(self)@.rx.push(packet@));
        }
    }

    /// Take every frame the guest sent, oldest first.
    pub fn get_tx_packets(&mut self) -> (r: Vec<Vec<u8>>)
        ensures
            packets_view(r@) == old(self)@.tx,
            final(self)@ == (EmacView { tx: Seq::empty(), ..old(self)@ }),
    {
        let mut out: Vec<Vec<u8>> = Vec::new();
        std::mem::swap(&mut out, &mut self.tx_queue);
        proof {
            assert(self@.tx =~= Seq::<Seq<u8>>::empty());
        }
        out
    }

    /// Record the IP address the host assigned.
    pub fn set_ip(&mut self, ip: [u8; 4])
        ensures
            final(self)@ == (EmacView { assigned_ip: Some(ip), ..old(self)@ }),
    {
        self.assigned_ip = Some(ip);
    }

    /// The assigned IP address.
    pub fn get_ip(&self) -> (r: Option<[u8; 4]>)
        ensures
            r == self@.assigned_ip,
    {
        self.assigned_ip
    }

    fn handle_mii_cmd(&mut self)
        ensures
            final(self)@ == mii_spec(old(self)@),
    {
        let reg_addr = (self.mii_cmd >> 4u32) & 0x1F;
        let is_write = (self.mii_cmd & 2) == 0;
        if is_write {
            if reg_addr == 0 {
                self.phy_bmcr = self.mii_data;
            }
        } else {
            self.mii_data = if reg_addr == 0 {
                self.phy_bmcr
            } else if reg_addr == 1 {
                self.phy_bmsr
            } else if reg_addr == 2 {
                0x001C
            } else if reg_addr == 3 {
                0xC816
            } else if reg_addr == 4 {
                0x01E1
            } else if reg_addr == 5 {
                0x45E1
            } else {
                0xFFFF
            };
        }
        self.mii_cmd = self.mii_cmd & !1u32;
    }

    /// Transmit DMA is enabled.
    pub fn is_tx_enabled(&self) -> (r: bool)
        ensures
            r == tx_enabled(self@),
    {
        (self.tx_ctl0 & 0x8000_0000) != 0 && (self.tx_ctl1 & 0x4000_0000) != 0
    }

    /// Receive DMA is enabled.
    pub fn is_rx_enabled(&self) -> (r: bool)
        ensures
            r == rx_enabled(self@),
    {
        (self.rx_ctl0 & 0x8000_0000) != 0 && (self.rx_ctl1 & 0x4000_0000) != 0
    }

    fn poll_tx(&mut self, dram: &mut Dram)
        ensures
            (final(self)@, final(dram)@) == tx_poll(old(self)@, old(dram)@),
    {
        if !(self.is_tx_enabled() && self.tx_dma_desc != 0 && self.tx_dma_desc as u64 >= DRAM_BASE) {
            return;
        }
        let offset = self.tx_dma_desc as u64 - DRAM_BASE;
        let status = load32_or_zero(dram, offset);
        if (status & DESC_OWN) == 0 {
            return;
        }
        let size = load32_or_zero(dram, offset + 4);
        let buf_addr = load32_or_zero(dram, offset + 8);
        let next_desc = load32_or_zero(dram, offset + 12);
        let frame_len = size & 0xFFFF;
        if buf_addr as u64 >= DRAM_BASE && frame_len > 0 && frame_len <= MAX_TX_FRAME {
            let buf_offset = buf_addr as u64 - DRAM_BASE;
            match dram.read_range(buf_offset as usize, frame_len as usize) {
                Ok(packet) => {
                    self.tx_queue.push(packet);
                    proof {
                        assert(self@.tx =~= old(self)@.tx.push(old(dram)@.data.subrange(buf_offset as int, buf_offset + frame_len)));
                    }
                },
                Err(_) => {},
            }
        }
        let _ = dram.store_32(offset, (status & !DESC_OWN) as u64);
        if next_desc as u64 >= DRAM_BASE {
            self.tx_dma_desc = next_desc;
        }
    }

    fn poll_rx(&mut self, dram: &mut Dram)
        ensures
            (final(self)@, final(dram)@) == rx_poll(old(self)@, old(dram)@),
    {
        if !(self.is_rx_enabled() && self.rx_dma_desc != 0 && self.rx_dma_desc as u64 >= DRAM_BASE) {
            return;
        }
        let offset = self.rx_dma_desc as u64 - DRAM_BASE;
        let status = load32_or_zero(dram, offset);
        if (status & DESC_OWN) == 0 || self.rx_queue.len() == 0 {
            return;
        }
        let packet = self.rx_queue.remove(0);
        proof {
            assert(self@.rx =~= old(self)@.rx.drop_first());
        }
        let size = load32_or_zero(dram, offset + 4);
        let buf_addr = load32_or_zero(dram, offset + 8);
        let next_desc = load32_or_zero(dram, offset + 12);
        let buf_size = (size >> 16u32) & 0x1FFF;
        assert((size >> 16u32) & 0x1FFF <= 0x1FFF) by (bit_vector);
        let frame_len: usize = if packet.len() < buf_size as usize { packet.len() } else { buf_size as usize };
        if buf_addr as u64 >= DRAM_BASE && frame_len > 0 {
            let buf_offset = buf_addr as u64 - DRAM_BASE;
            let ghost d0 = dram@;
            let mut i: usize = 0;
            while i < frame_len
                invariant
                    i <= frame_len <= packet@.len(),
                    frame_len <= 0x1FFF,
                    buf_offset < 0x1_0000_0000,
                    dram@.base == d0.base,
                    dram@.data.len() == d0.data.len(),
                    forall|k: int| 0 <= k < d0.data.len() && !(buf_offset <= k < buf_offset + i) ==> dram@.data[k] == d0.data[k],
                    forall|k: int| 0 <= k < d0.data.len() && buf_offset <= k < buf_offset + i ==> dram@.data[k] == packet@[k - buf_offset],
                decreases frame_len - i,
            {
                let _ = dram.store_8(buf_offset + i as u64, packet[i] as u64);
                proof {
                    lemma_low_byte(packet@[i as int]);
                }
                i = i + 1;
            }
            proof {
                assert(dram@.data =~= write_slice(d0.data, buf_offset as int, packet@.take(frame_len as int)));
            }
            let new_status = DESC_FIRST | DESC_LAST | ((frame_len as u32) << 16u32);
            let _ = dram.store_32(offset, new_status as u64);
            self.int_sta = self.int_sta | INT_RX_DONE;
            if next_desc as u64 >= DRAM_BASE {
                self.rx_dma_desc = next_desc;
            }
        }
    }

    /// Run one transmit and then one receive descriptor through DMA.
    pub fn poll_dma(&mut self, dram: &mut Dram)
        ensures
            ({
                let (v1, d1) = tx_poll(old(self)@, old(dram)@);
                (final(self)@, final(dram)@) == rx_poll(v1, d1)
            }),
    {
        self.poll_tx(dram);
        self.poll_rx(dram);
    }

    /// 32-bit register read.
    pub fn mmio_read32(&self, addr: u64) -> (r: u32)
        ensures
            r == read_spec(self@, addr & 0xFFF),
    {
        let offset = addr & 0xFFF;
        if offset == 0x00 {
            self.basic_ctl0
        } else if offset == 0x04 {
            self.basic_ctl1
        } else if offset == 0x08 {
            self.int_sta
        } else if offset == 0x0C {
            self.int_en
        } else if offset == 0x10 {
            self.tx_ctl0
        } else if offset == 0x14 {
            self.tx_ctl1
        } else if offset == 0x20 {
            self.tx_dma_desc
        } else if offset == 0x24 {
            self.rx_ctl0
        } else if offset == 0x28 {
            self.rx_ctl1
        } else if offset == 0x34 {
            self.rx_dma_desc
        } else if offset == 0x48 {
            self.mii_cmd
        } else if offset == 0x4C {
            self.mii_data
        } else if offset == 0x50 {
            self.addr_high
        } else if offset == 0x54 {
            self.addr_low
        } else if offset == 0xB0 {
            0
        } else if offset == 0xC0 {
            if self.rx_queue.len() > 0 { 1 } else { 0 }
        } else if offset == 0x100 {
            match self.assigned_ip {
                Some(ip) => ((ip[0] as u32) << 24u32) | ((ip[1] as u32) << 16u32) | ((ip[2] as u32) << 8u32) | (ip[3] as u32),
                None => 0,
            }
        } else {
            0
        }
    }

    /// 32-bit register write; an MII command with the busy bit executes at once.
    pub fn mmio_write32(&mut self, addr: u64, value: u32)
        ensures
            final(self)@ == write_spec(old(self)@, addr & 0xFFF, value),
    {
        let offset = addr & 0xFFF;
        if offset == 0x00 {
            self.basic_ctl0 = value;
        } else if offset == 0x04 {
            self.basic_ctl1 = if (value & 1) != 0 { value & !1u32 } else { value };
        } else if offset == 0x08 {
            self.int_sta = self.int_sta & !value;
        } else if offset == 0x0C {
            self.int_en = value;
        } else if offset == 0x10 {
            self.tx_ctl0 = value;
        } else if offset == 0x14 {
            self.tx_ctl1 = value;
        } else if offset == 0x20 {
            self.tx_dma_desc = value;
        } else if offset == 0x24 {
            self.rx_ctl0 = value;
        } else if offset == 0x28 {
            self.rx_ctl1 = value;
        } else if offset == 0x34 {
            self.rx_dma_desc = value;
        } else if offset == 0x48 {
            self.mii_cmd = value;
            if (value & 1) != 0 {
                self.handle_mii_cmd();
            }
        } else if offset == 0x4C {
            self.mii_data = value;
        } else if offset == 0x50 {
            self.addr_high = value;
        } else if offset == 0x54 {
            self.addr_low = value;
        }
    }

    /// Byte read: the addressed byte of the containing word.
    pub fn mmio_read8(&self, addr: u64) -> (r: u8)
        ensures
            r == (read_spec(self@, (addr & !3u64) & 0xFFF) >> ((addr & 3) * 8) as u32) as u8,
    {
        let word = self.mmio_read32(addr & !3u64);
        assert(addr & 3 <= 3) by (bit_vector);
        let shift = (addr & 3) * 8;
        (word >> shift as u32) as u8
    }

    /// Byte writes are ignored.
    pub fn mmio_write8(&mut self, _addr: u64, _value: u8)
        ensures
            final(self)@ == old(self)@,
    {
    }
}

impl Default for D1EmacEmulated {
    fn default() -> (r: Self)
        ensures
            r@ == reset_view(seq![0x02u8, 0x00, 0x00, 0x00, 0x00, 0x01], 0, 0),
    {
        Self::new()
    }
}

proof fn lemma_low_byte(b: u8)
    ensures
        crate::dram::le_byte(b as u64, 0) == b,
{
    assert((((b as u64) >> 0u64) & 0xff) as u8 == b) by (bit_vector);
}

/// Frames reach the host in the order the guest sent them: a transmit poll
/// only ever appends to the host queue.
pub proof fn lemma_tx_poll_appends(v: EmacView, d: DramView)
    ensures
        tx_poll(v, d).0.tx == v.tx || tx_poll(v, d).0.tx == v.tx.push(tx_poll(v, d).0.tx.last()),
        tx_poll(v, d).0.rx == v.rx,
{
}

/// Frames reach the guest in the order the host queued them: a receive poll
/// takes at most the oldest queued frame and keeps the rest in order.
pub proof fn lemma_rx_poll_takes_oldest(v: EmacView, d: DramView)
    ensures
        rx_poll(v, d).0.rx == v.rx || (v.rx.len() > 0 && rx_poll(v, d).0.rx == v.rx.drop_first()),
        rx_poll(v, d).0.tx == v.tx,
{
}

} // verus!
