//! 16550-style UART with receive and transmit FIFOs.

use vstd::prelude::*;
use std::collections::VecDeque;
use vstd::string::StringSliceAdditionalSpecFns;
use crate::dram::MemoryError;

verus! {

pub const UART_BASE: u64 = 0x1000_0000;
pub const UART_SIZE: u64 = 0x100;

// Register offsets
/// Receiver Buffer (read).
pub const RBR: u64 = 0x00;
/// Transmitter Holding (write).
pub const THR: u64 = 0x00;
/// Interrupt Enable.
pub const IER: u64 = 0x01;
/// Interrupt Identity (read).
pub const IIR: u64 = 0x02;
/// FIFO Control (write).
pub const FCR: u64 = 0x02;
/// Line Control.
pub const LCR: u64 = 0x03;
/// Modem Control.
pub const MCR: u64 = 0x04;
/// Line Status.
pub const LSR: u64 = 0x05;
/// Modem Status.
pub const MSR: u64 = 0x06;
/// Scratch.
pub const SCR: u64 = 0x07;

/// Abstract UART state.
pub struct UartView {
    /// Input FIFO (host to guest), front first.
    pub rx: Seq<u8>,
    /// Output FIFO (guest to host), front first.
    pub tx: Seq<u8>,
    /// THRE interrupt pending flag.
    pub thre_ip: bool,
    pub ier: u8,
    pub iir: u8,
    pub fcr: u8,
    pub lcr: u8,
    pub mcr: u8,
    pub lsr: u8,
    pub msr: u8,
    pub scr: u8,
    pub dll: u8,
    pub dlm: u8,
    pub interrupting: bool,
}

/// Interrupt state recomputed from the registers: received data available
/// (IIR 0x04) takes precedence over THR empty (IIR 0x02); otherwise none (0x01).
pub open spec fn irq_update(v: UartView) -> UartView {
    if v.lsr & 1 != 0 && v.ier & 1 != 0 {
        UartView { interrupting: true, iir: 0x04, ..v }
    } else if v.thre_ip && v.ier & 2 != 0 {
        UartView { interrupting: true, iir: 0x02, ..v }
    } else {
        UartView { interrupting: false, iir: 0x01, ..v }
    }
}

/// Divisor-latch access bit of LCR is set.
pub open spec fn dlab(v: UartView) -> bool {
    v.lcr & 0x80 != 0
}

/// Result value and state of a register load.
pub open spec fn load_spec(v: UartView, offset: u64, size: u64) -> (u64, UartView) {
    if size != 1 {
        (0, v)
    } else if offset == RBR {
        if dlab(v) {
            (v.dll as u64, v)
        } else {
            let byte: u8 = if v.rx.len() > 0 { v.rx[0] } else { 0 };
            let rx = if v.rx.len() > 0 { v.rx.drop_first() } else { v.rx };
            let lsr = if rx.len() == 0 { v.lsr & !1u8 } else { v.lsr };
            (byte as u64, irq_update(UartView { rx, lsr, ..v }))
        }
    } else if offset == IER {
        (if dlab(v) { v.dlm as u64 } else { v.ier as u64 }, v)
    } else if offset == IIR {
        if v.iir & 0x0F == 0x02 {
            (v.iir as u64, irq_update(UartView { thre_ip: false, ..v }))
        } else {
            (v.iir as u64, v)
        }
    } else if offset == LCR {
        (v.lcr as u64, v)
    } else if offset == MCR {
        (v.mcr as u64, v)
    } else if offset == LSR {
        (v.lsr as u64, v)
    } else if offset == MSR {
        (v.msr as u64, v)
    } else if offset == SCR {
        (v.scr as u64, v)
    } else {
        (0, v)
    }
}

/// State after a register store.
pub open spec fn store_spec(v: UartView, offset: u64, size: u64, value: u64) -> UartView {
    let val = (value & 0xff) as u8;
    if size != 1 {
        v
    } else if offset == THR {
        if dlab(v) {
            UartView { dll: val, ..v }
        } else {
            irq_update(UartView { tx: v.tx.push(val), lsr: v.lsr | 0x20, thre_ip: true, ..v })
        }
    } else if offset == IER {
        if dlab(v) {
            UartView { dlm: val, ..v }
        } else {
            irq_update(UartView { ier: val, ..v })
        }
    } else if offset == FCR {
        let v1 = UartView { fcr: val, ..v };
        let v2 = if val & 2 != 0 { UartView { rx: Seq::empty(), lsr: v1.lsr & !1u8, ..v1 } } else { v1 };
        if val & 4 != 0 { UartView { tx: Seq::empty(), lsr: v2.lsr | 0x60, ..v2 } } else { v2 }
    } else if offset == LCR {
        UartView { lcr: val, ..v }
    } else if offset == MCR {
        UartView { mcr: val, ..v }
    } else if offset == SCR {
        UartView { scr: val, ..v }
    } else {
        v
    }
}

/// UART with separate receive and transmit paths.
pub struct Uart {
    rx: VecDeque<u8>,
    tx: VecDeque<u8>,
    thre_ip: bool,
    ier: u8,
    iir: u8,
    fcr: u8,
    lcr: u8,
    mcr: u8,
    lsr: u8,
    msr: u8,
    scr: u8,
    dll: u8,
    dlm: u8,
    interrupting: bool,
}

impl View for Uart {
    type V = UartView;

    closed spec fn view(&self) -> UartView {
        UartView {
            rx: self.rx@,
            tx: self.tx@,
            thre_ip: self.thre_ip,
            ier: self.ier,
            iir: self.iir,
            fcr: self.fcr,
            lcr: self.lcr,
            mcr: self.mcr,
            lsr: self.lsr,
            msr: self.msr,
            scr: self.scr,
            dll: self.dll,
            dlm: self.dlm,
            interrupting: self.interrupting,
        }
    }
}

fn deque_to_vec(q: &VecDeque<u8>) -> (r: Vec<u8>)
    ensures
        r@ == q@,
{
    let mut r: Vec<u8> = Vec::new();
    let mut i: usize = 0;
    while i < q.len()
        invariant
            i <= q@.len(),
            r@ == q@.subrange(0, i as int),
        decreases q@.len() - i,
    {
        r.push(q[i]);
        i = i + 1;
        proof {
            assert(r@ =~= q@.subrange(0, i as int));
        }
    }
    proof {
        assert(r@ =~= q@);
    }
    r
}

fn slice_to_deque(values: &[u8]) -> (r: VecDeque<u8>)
    ensures
        r@ == values@,
{
    let mut r: VecDeque<u8> = VecDeque::new();
    let mut i: usize = 0;
    while i < values.len()
        invariant
            i <= values@.len(),
            r@ == values@.subrange(0, i as int),
        decreases values@.len() - i,
    {
        r.push_back(values[i]);
        i = i + 1;
        proof {
            assert(r@ =~= values@.subrange(0, i as int));
        }
    }
    proof {
        assert(r@ =~= values@);
    }
    r
}

/// An idle UART: empty FIFOs, THR empty (LSR 0x60, THRE pending), no interrupt.
pub open spec fn reset_view() -> UartView {
    UartView {
        rx: Seq::empty(),
        tx: Seq::empty(),
        thre_ip: true,
        ier: 0,
        iir: 1,
        fcr: 0,
        lcr: 0,
        mcr: 0,
        lsr: 0x60,
        msr: 0,
        scr: 0,
        dll: 0,
        dlm: 0,
        interrupting: false,
    }
}

impl Uart {
    /// An idle UART: empty FIFOs, THR empty (LSR 0x60, THRE pending), no interrupt.
    pub fn new() -> (r: Self)
        ensures
            r@ == reset_view(),
    {
        Self {
            rx: VecDeque::new(),
            tx: VecDeque::new(),
            thre_ip: true,
            ier: 0x00,
            iir: 0x01,
            fcr: 0x00,
            lcr: 0x00,
            mcr: 0x00,
            lsr: 0x60,
            msr: 0x00,
            scr: 0x00,
            dll: 0x00,
            dlm: 0x00,
            interrupting: false,
        }
    }

    fn update_interrupts(&mut self)
        ensures
            final(self)@ == irq_update(old(self)@),
    {
        self.interrupting = false;
        self.iir = 0x01;
        if (self.lsr & 0x01) != 0 && (self.ier & 0x01) != 0 {
            self.interrupting = true;
            self.iir = 0x04;
            return;
        }
        if self.thre_ip && (self.ier & 0x02) != 0 {
            self.interrupting = true;
            self.iir = 0x02;
        }
    }

    /// The UART is signalling an interrupt.
    pub fn is_interrupting(&self) -> (r: bool)
        ensures
            r == self@.interrupting,
    {
        self.interrupting
    }

    /// Contents of the input FIFO, front first.
    pub fn get_input(&self) -> (r: Vec<u8>)
        ensures
            r@ == self@.rx,
    {
        deque_to_vec(&self.rx)
    }

    /// Contents of the output FIFO, front first.
    pub fn get_output(&self) -> (r: Vec<u8>)
        ensures
            r@ == self@.tx,
    {
        deque_to_vec(&self.tx)
    }

    /// Number of bytes pending in the output FIFO.
    pub fn output_len(&self) -> (r: usize)
        ensures
            r == self@.tx.len(),
    {
        self.tx.len()
    }

    /// All register values: (ier, iir, fcr, lcr, mcr, lsr, msr, scr, dll, dlm).
    pub fn get_registers(&self) -> (r: (u8, u8, u8, u8, u8, u8, u8, u8, u8, u8))
        ensures
            r == (self@.ier, self@.iir, self@.fcr, self@.lcr, self@.mcr, self@.lsr, self@.msr,
                self@.scr, self@.dll, self@.dlm),
    {
        (self.ier, self.iir, self.fcr, self.lcr, self.mcr, self.lsr, self.msr, self.scr, self.dll, self.dlm)
    }

    /// Replace the input FIFO; LSR data-ready follows whether it is empty.
    pub fn set_input(&mut self, values: &[u8])
        ensures
            final(self)@ == (UartView {
                rx: values@,
                lsr: if values@.len() > 0 { old(self)@.lsr | 1 } else { old(self)@.lsr & !1u8 },
                ..old(self)@
            }),
    {
        self.rx = slice_to_deque(values);
        if self.rx.len() > 0 {
            self.lsr = self.lsr | 0x01;
        } else {
            self.lsr = self.lsr & !0x01u8;
        }
    }

    /// Replace the output FIFO.
    pub fn set_output(&mut self, values: &[u8])
        ensures
            final(self)@ == (UartView { tx: values@, ..old(self)@ }),
    {
        self.tx = slice_to_deque(values);
    }

    /// Restore every register, then recompute the interrupt state.
    pub fn set_registers(
        &mut self,
        ier: u8,
        iir: u8,
        fcr: u8,
        lcr: u8,
        mcr: u8,
        lsr: u8,
        msr: u8,
        scr: u8,
        dll: u8,
        dlm: u8,
    )
        ensures
            final(self)@ == irq_update(UartView { ier, iir, fcr, lcr, mcr, lsr, msr, scr, dll, dlm, ..old(self)@ }),
    {
        self.ier = ier;
        self.iir = iir;
        self.fcr = fcr;
        self.lcr = lcr;
        self.mcr = mcr;
        self.lsr = lsr;
        self.msr = msr;
        self.scr = scr;
        self.dll = dll;
        self.dlm = dlm;
        self.update_interrupts();
    }

    /// Byte register load; reading RBR consumes input, reading IIR acknowledges THRE.
    pub fn load(&mut self, offset: u64, size: u64) -> (r: Result<u64, MemoryError>)
        ensures
            r == Ok::<u64, MemoryError>(load_spec(old(self)@, offset, size).0),
            final(self)@ == load_spec(old(self)@, offset, size).1,
    {
        if size != 1 {
            return Ok(0);
        }
        if offset == RBR {
            if (self.lcr & 0x80) != 0 {
                Ok(self.dll as u64)
            } else {
                let byte = match self.rx.pop_front() {
                    Some(b) => b,
                    None => 0,
                };
                if self.rx.len() == 0 {
                    self.lsr = self.lsr & !0x01u8;
                }
                self.update_interrupts();
                Ok(byte as u64)
            }
        } else if offset == IER {
            if (self.lcr & 0x80) != 0 {
                Ok(self.dlm as u64)
            } else {
                Ok(self.ier as u64)
            }
        } else if offset == IIR {
            let val = self.iir;
            if (val & 0x0F) == 0x02 {
                self.thre_ip = false;
                self.update_interrupts();
            }
            Ok(val as u64)
        } else if offset == LCR {
            Ok(self.lcr as u64)
        } else if offset == MCR {
            Ok(self.mcr as u64)
        } else if offset == LSR {
            Ok(self.lsr as u64)
        } else if offset == MSR {
            Ok(self.msr as u64)
        } else if offset == SCR {
            Ok(self.scr as u64)
        } else {
            Ok(0)
        }
    }

    /// Byte register store; writing THR transmits, FCR clears FIFOs.
    pub fn store(&mut self, offset: u64, size: u64, value: u64) -> (r: Result<(), MemoryError>)
        ensures
            r == Ok::<(), MemoryError>(()),
            final(self)@ == store_spec(old(self)@, offset, size, value),
    {
        if size != 1 {
            return Ok(());
        }
        let val = (value & 0xff) as u8;
        if offset == THR {
            if (self.lcr & 0x80) != 0 {
                self.dll = val;
            } else {
                self.tx.push_back(val);
                self.lsr = self.lsr | 0x20;
                self.thre_ip = true;
                self.update_interrupts();
            }
        } else if offset == IER {
            if (self.lcr & 0x80) != 0 {
                self.dlm = val;
            } else {
                self.ier = val;
                self.update_interrupts();
            }
        } else if offset == FCR {
            self.fcr = val;
            if (val & 0x02) != 0 {
                self.rx.clear();
                self.lsr = self.lsr & !0x01u8;
            }
            if (val & 0x04) != 0 {
                self.tx.clear();
                self.lsr = self.lsr | 0x60;
            }
        } else if offset == LCR {
            self.lcr = val;
        } else if offset == MCR {
            self.mcr = val;
        } else if offset == SCR {
            self.scr = val;
        }
        Ok(())
    }

    /// Push an input byte from the host; sets data-ready and recomputes interrupts.
    pub fn push_input(&mut self, byte: u8)
        ensures
            final(self)@ == irq_update(UartView { rx: old(self)@.rx.push(byte), lsr: old(self)@.lsr | 1, ..old(self)@ }),
    {
        self.rx.push_back(byte);
        self.lsr = self.lsr | 0x01;
        self.update_interrupts();
    }

    /// Pop the oldest output byte.
    pub fn pop_output(&mut self) -> (r: Option<u8>)
        ensures
            old(self)@.tx.len() == 0 ==> r is None && final(self)@ == old(self)@,
            old(self)@.tx.len() > 0 ==> r == Some(old(self)@.tx[0])
                && final(self)@ == (UartView { tx: old(self)@.tx.drop_first(), ..old(self)@ }),
    {
        let r = self.tx.pop_front();
        proof {
            if old(self)@.tx.len() > 0 {
                assert(self@.tx =~= old(self)@.tx.drop_first());
            }
        }
        r
    }

    /// Remove and return all output.
    pub fn drain_output(&mut self) -> (r: Vec<u8>)
        ensures
            r@ == old(self)@.tx,
            final(self)@ == (UartView { tx: Seq::empty(), ..old(self)@ }),
    {
        let r = deque_to_vec(&self.tx);
        self.tx.clear();
        r
    }

    /// Output is pending.
    pub fn has_output(&self) -> (r: bool)
        ensures
            r == (self@.tx.len() > 0),
    {
        self.tx.len() > 0
    }

    /// Push a byte directly to the output queue.
    pub fn push_output(&mut self, byte: u8)
        ensures
            final(self)@ == (UartView { tx: old(self)@.tx.push(byte), ..old(self)@ }),
    {
        self.tx.push_back(byte);
    }

    /// Push the bytes of a string directly to the output queue.
    pub fn push_output_str(&mut self, s: &str)
        ensures
            final(self)@ == (UartView { tx: old(self)@.tx + s.spec_bytes(), ..old(self)@ }),
    {
        let bytes = s.as_bytes();
        let mut i: usize = 0;
        while i < bytes.len()
            invariant
                i <= bytes@.len(),
                bytes@ == s.spec_bytes(),
                self@ == (UartView { tx: old(self)@.tx + bytes@.subrange(0, i as int), ..old(self)@ }),
            decreases bytes@.len() - i,
        {
            self.tx.push_back(bytes[i]);
            i = i + 1;
            proof {
                assert(self@.tx =~= old(self)@.tx + bytes@.subrange(0, i as int));
            }
        }
        proof {
            assert(bytes@.subrange(0, i as int) =~= bytes@);
        }
    }

    /// Clear the interrupt flag.
    pub fn clear_interrupt(&mut self)
        ensures
            final(self)@ == (UartView { interrupting: false, ..old(self)@ }),
    {
        self.interrupting = false;
    }
}

/// The scratch register reads back the low byte last written to it.
pub proof fn lemma_scratch_roundtrip(v: UartView, value: u64)
    ensures
        load_spec(store_spec(v, SCR, 1, value), SCR, 1).0 == value & 0xff,
{
    assert((value & 0xff) as u8 as u64 == value & 0xff) by (bit_vector);
}

/// With DLAB set, the divisor latch bytes written through THR and IER are read
/// back through RBR and IER, and the FIFOs are untouched.
pub proof fn lemma_divisor_latch_roundtrip(v: UartView, lo: u64, hi: u64)
    requires
        dlab(v),
    ensures
        ({
            let w = store_spec(store_spec(v, THR, 1, lo), IER, 1, hi);
            &&& load_spec(w, RBR, 1).0 == lo & 0xff
            &&& load_spec(w, IER, 1).0 == hi & 0xff
            &&& w.rx == v.rx
            &&& w.tx == v.tx
        }),
{
    assert((lo & 0xff) as u8 as u64 == lo & 0xff && (hi & 0xff) as u8 as u64 == hi & 0xff) by (bit_vector);
}

/// A byte pushed by the host into an empty input FIFO is the next byte read
/// from RBR, after which the FIFO is empty and data-ready is clear.
pub proof fn lemma_input_delivered(v: UartView, byte: u8)
    requires
        !dlab(v),
        v.rx.len() == 0,
    ensures
        ({
            let w = irq_update(UartView { rx: v.rx.push(byte), lsr: v.lsr | 1, ..v });
            let (r, x) = load_spec(w, RBR, 1);
            &&& r == byte as u64
            &&& x.rx.len() == 0
            &&& x.lsr & 1 == 0
        }),
{
    let l = v.lsr;
    assert(((l | 1u8) & !1u8) & 1u8 == 0u8) by (bit_vector);
}

/// A byte stored to THR outside DLAB is appended to the output FIFO.
pub proof fn lemma_transmit_appends(v: UartView, value: u64)
    requires
        !dlab(v),
    ensures
        store_spec(v, THR, 1, value).tx == v.tx.push((value & 0xff) as u8),
{
}

/// FCR bit 1 empties the input FIFO and clears data-ready; bit 2 empties the
/// output FIFO.
pub proof fn lemma_fifo_clear(v: UartView, value: u64)
    ensures
        value & 2 != 0 ==> store_spec(v, FCR, 1, value).rx.len() == 0
            && store_spec(v, FCR, 1, value).lsr & 1 == 0,
        value & 4 != 0 ==> store_spec(v, FCR, 1, value).tx.len() == 0,
{
    let val = (value & 0xff) as u8;
    let l = v.lsr;
    assert((value & 2 != 0) == (((value & 0xff) as u8) & 2 != 0)
        && (value & 4 != 0) == (((value & 0xff) as u8) & 4 != 0)
        && (l & !1u8) & 1 == 0 && ((l & !1u8) | 0x60u8) & 1 == 0) by (bit_vector);
}

/// With DLAB clear, the THR-empty interrupt enabled (IER bit 1) and no
/// received byte waiting (LSR bit 0 clear), a byte written to THR (offset 0)
/// is queued for the host, LSR shows THR empty (bit 5), and the UART is left
/// interrupting with IIR (offset
/// 2) reading 0x02, THR empty; this holds after every write, so
/// acknowledging the interrupt by reading IIR never stops the next one.
pub proof fn lemma_thr_write_raises_thre(v: UartView, value: u64)
    requires
        !dlab(v),
        v.ier & 2 != 0,
        v.lsr & 1 == 0,
    ensures
        ({
            let w = store_spec(v, 0, 1, value);
            &&& w.tx == v.tx.push((value & 0xff) as u8)
            &&& w.interrupting
            &&& w.iir == 0x02
            &&& load_spec(w, 2, 1).0 == 0x02
            &&& w.lsr & 0x20 != 0
            &&& w.lcr == v.lcr && w.ier == v.ier && w.lsr & 1 == 0
        }),
{
    crate::bits::lemma_bit_facts(0, 0, 0, 0, 0, 0, 0, 0, v.lsr, 0, 0, 0, 0, 0, 0, 0, 0, 0);
}

/// With DLAB clear, a read of RBR (offset 0) hands out the oldest received
/// byte and removes it from the FIFO (an empty FIFO reads 0); when the FIFO
/// is left empty, LSR bit 0 (data ready) is clear. Output is untouched.
pub proof fn lemma_rbr_read_takes_oldest(v: UartView)
    requires
        !dlab(v),
    ensures
        ({
            let (r, w) = load_spec(v, 0, 1);
            &&& v.rx.len() > 0 ==> r == v.rx[0] as u64 && w.rx == v.rx.drop_first()
            &&& v.rx.len() == 0 ==> r == 0 && w.rx == v.rx
            &&& w.rx.len() == 0 ==> w.lsr & 1 == 0
            &&& w.tx == v.tx
        }),
{
    crate::bits::lemma_bit_facts(0, 0, 0, 0, 0, 0, 0, 0, v.lsr, 0, 0, 0, 0, 0, 0, 0, 0, 0);
}

} // verus!
