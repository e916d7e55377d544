//! The F/D registers and their moves to and from memory (FLW, FLD, FSW, FSD).
//!
//! These instructions move bit patterns only: a single is NaN-boxed on its
//! way into a register, and no arithmetic is done on the value.

use vstd::prelude::*;
use crate::bus::Bus;
use crate::cpu::csr::CSR_MSTATUS;
use crate::cpu::engine::{after_store, xlate};
use crate::cpu::fp_bits::box_f32_bits;
use crate::cpu::hart::{Cpu, CpuView, after_trap};
use crate::cpu::types::Trap;
use crate::mmu::AccessType;

verus! {

/// Whether mstatus.FS lets the FP unit be used.
pub open spec fn fp_usable(c: CpuView) -> bool {
    (c.csrs[CSR_MSTATUS as int] >> 13u64) & 3 != 0
}

/// `c` with FP register `rd` set to `bits` and the FP state marked dirty
/// (mstatus.FS = Dirty).
pub open spec fn set_freg(c: CpuView, rd: usize, bits: u64) -> CpuView {
    CpuView {
        fregs: c.fregs.update(rd as int, bits),
        csrs: c.csrs.update(CSR_MSTATUS as int, c.csrs[CSR_MSTATUS as int] | (3u64 << 13u64)),
        ..c
    }
}

/// The address `rs1 + imm` (x0 reads as zero).
pub open spec fn fp_addr(c: CpuView, rs1: usize, imm: i64) -> u64 {
    let base: u64 = if rs1 == 0 { 0 } else { c.regs[rs1 as int] };
    vstd::wrapping::u64_specs::wrapping_add(base, imm as u64)
}

/// FLW (`funct3` 2) or FLD (`funct3` 3) for the instruction at `pc`: the
/// result, the hart and the bus after it. A translation fault enters the
/// trap; a bus fault is only handed back.
pub open spec fn load_fp_spec<B: Bus>(c: CpuView, s: B::State, rd: usize, rs1: usize, imm: i64, funct3: u32, pc: u64)
    -> (Result<(), Trap>, CpuView, B::State)
{
    if !fp_usable(c) {
        (Err(Trap::IllegalInstruction(0)), c, s)
    } else {
        match xlate::<B>(c, s, fp_addr(c, rs1, imm), AccessType::Load) {
            (Err(t), s1) => (Err(t), after_trap(c, t, pc), s1),
            (Ok(pa), s1) => if funct3 == 2 {
                match B::read_outcome(s1, pa, 4) {
                    (Ok(v), s2) => (Ok(()), set_freg(c, rd, 0xFFFF_FFFF_0000_0000u64 | ((v as u32) as u64)), s2),
                    (Err(t), s2) => (Err(t), c, s2),
                }
            } else if funct3 == 3 {
                match B::read_outcome(s1, pa, 8) {
                    (Ok(v), s2) => (Ok(()), set_freg(c, rd, v), s2),
                    (Err(t), s2) => (Err(t), c, s2),
                }
            } else {
                (Err(Trap::IllegalInstruction(0)), c, s1)
            },
        }
    }
}

/// FSW (`funct3` 2) or FSD (`funct3` 3) for the instruction at `pc`: the
/// result, the hart and the bus after it. A translation fault enters the
/// trap; otherwise a reservation on the target's granule is dropped before
/// the write is tried.
pub open spec fn store_fp_spec<B: Bus>(c: CpuView, s: B::State, rs1: usize, rs2: usize, imm: i64, funct3: u32, pc: u64)
    -> (Result<(), Trap>, CpuView, B::State)
{
    let addr = fp_addr(c, rs1, imm);
    let c1 = after_store(c, addr);
    let bits = c.fregs[rs2 as int];
    if !fp_usable(c) {
        (Err(Trap::IllegalInstruction(0)), c, s)
    } else {
        match xlate::<B>(c, s, addr, AccessType::Store) {
            (Err(t), s1) => (Err(t), after_trap(c, t, pc), s1),
            (Ok(pa), s1) => if funct3 == 2 {
                let (r, s2) = B::write_outcome(s1, pa, 4, (bits as u32) as u64);
                (r, c1, s2)
            } else if funct3 == 3 {
                let (r, s2) = B::write_outcome(s1, pa, 8, bits);
                (r, c1, s2)
            } else {
                (Err(Trap::IllegalInstruction(0)), c1, s1)
            },
        }
    }
}

impl Cpu {
    /// Set FP register `rd` to `bits` and mark the FP state dirty.
    pub fn write_freg(&mut self, rd: usize, bits: u64)
        requires
            rd < 32,
        ensures
            final(self)@ == set_freg(old(self)@, rd, bits),
    {
        self.fregs[rd] = bits;
        self.set_fs_dirty();
    }

    /// FLW / FLD at `pc`: load FP register `rd` from `x[rs1] + imm`.
    pub fn exec_load_fp<B: Bus>(&mut self, bus: &mut B, rd: usize, rs1: usize, imm: i64, funct3: u32, pc: u64) -> (r: Result<(), Trap>)
        requires
            old(bus).inv(),
            rd < 32,
            rs1 < 32,
        ensures
            final(bus).inv(),
            (r, final(self)@, final(bus).state()) == load_fp_spec::<B>(old(self)@, old(bus).state(), rd, rs1, imm, funct3, pc),
    {
        if !self.fpu_enabled() {
            return Err(Trap::IllegalInstruction(0));
        }
        let addr = self.read_reg(rs1).wrapping_add(imm as u64);
        let pa = match self.translate_data(bus, addr, AccessType::Load) {
            Ok(pa) => pa,
            Err(t) => return self.handle_trap(t, pc, None),
        };
        if funct3 == 2 {
            match bus.read32(pa) {
                Ok(v) => {
                    self.write_freg(rd, box_f32_bits(v));
                    Ok(())
                },
                Err(t) => Err(t),
            }
        } else if funct3 == 3 {
            match bus.read64(pa) {
                Ok(v) => {
                    self.write_freg(rd, v);
                    Ok(())
                },
                Err(t) => Err(t),
            }
        } else {
            Err(Trap::IllegalInstruction(0))
        }
    }

    /// FSW / FSD at `pc`: store FP register `rs2` (its low word for FSW) at
    /// `x[rs1] + imm`.
    pub fn exec_store_fp<B: Bus>(&mut self, bus: &mut B, rs1: usize, rs2: usize, imm: i64, funct3: u32, pc: u64) -> (r: Result<(), Trap>)
        requires
            old(bus).inv(),
            rs1 < 32,
            rs2 < 32,
        ensures
            final(bus).inv(),
            (r, final(self)@, final(bus).state()) == store_fp_spec::<B>(old(self)@, old(bus).state(), rs1, rs2, imm, funct3, pc),
    {
        if !self.fpu_enabled() {
            return Err(Trap::IllegalInstruction(0));
        }
        let addr = self.read_reg(rs1).wrapping_add(imm as u64);
        let pa = match self.translate_data(bus, addr, AccessType::Store) {
            Ok(pa) => pa,
            Err(t) => return self.handle_trap(t, pc, None),
        };
        self.clear_reservation_if_conflict(addr);
        let bits = self.fregs[rs2];
        if funct3 == 2 {
            bus.write32(pa, bits as u32)
        } else if funct3 == 3 {
            bus.write64(pa, bits)
        } else {
            Err(Trap::IllegalInstruction(0))
        }
    }
}

} // verus!
