//! Decoding and the exact part of OP-FP (opcode 0x53): which encodings are
//! legal, and the instructions whose result is a bit manipulation (sign
//! injection, classification, moves between register files). What is left
//! needs IEEE-754 arithmetic and is done by the host's float unit.

use vstd::prelude::*;
use crate::cpu::fp_bits::{
    box_f32_bits, fclass32, fclass64, fclass_f32_bits, fclass_f64_bits, fsgnj32, fsgnj64, fsgnj_f32_bits,
    fsgnj_f64_bits, unbox_f32_bits, unboxed,
};
use crate::cpu::fp_mem::{fp_usable, set_freg};
use crate::cpu::hart::{Cpu, CpuView};
use crate::cpu::types::Trap;

verus! {

/// What is left of an OP-FP instruction after the exact part.
#[derive(Clone, Copy, Debug, PartialEq, Eq, Structural)]
pub enum FpStep {
    /// The instruction is complete.
    Done,
    /// A legal arithmetic, comparison or conversion instruction, to be
    /// computed by the host's float unit.
    Host,
}

/// Whether `funct7` names an OP-FP instruction computed by float arithmetic
/// (add, sub, mul, div, sqrt, min/max, FCVT between formats).
pub open spec fn host_arith(funct7: u32) -> bool {
    funct7 == 0x00 || funct7 == 0x04 || funct7 == 0x08 || funct7 == 0x0C || funct7 == 0x2C
        || funct7 == 0x01 || funct7 == 0x05 || funct7 == 0x09 || funct7 == 0x0D || funct7 == 0x2D
        || funct7 == 0x14 || funct7 == 0x15 || funct7 == 0x20 || funct7 == 0x21
}

/// `c` with integer register `rd` set to `v` (x0 keeps zero).
pub open spec fn set_xreg(c: CpuView, rd: usize, v: u64) -> CpuView {
    if rd == 0 { c } else { CpuView { regs: c.regs.update(rd as int, v), ..c } }
}

/// Integer register `r` of `c` (x0 reads zero).
pub open spec fn xreg(c: CpuView, r: usize) -> u64 {
    if r == 0 { 0 } else { c.regs[r as int] }
}

/// The exact part of OP-FP: the result and the hart after it.
pub open spec fn op_fp_exact_spec(c: CpuView, rd: usize, rs1: usize, rs2: usize, funct7: u32, rm: u32)
    -> (Result<FpStep, Trap>, CpuView)
{
    let illegal = (Err(Trap::IllegalInstruction(0)), c);
    let f1 = c.fregs[rs1 as int];
    let f2 = c.fregs[rs2 as int];
    if !fp_usable(c) {
        illegal
    } else if funct7 == 0x10 {
        if rm > 2 { illegal } else {
            (Ok(FpStep::Done), set_freg(c, rd, 0xFFFF_FFFF_0000_0000u64 | (fsgnj32(unboxed(f1), unboxed(f2), rm) as u64)))
        }
    } else if funct7 == 0x11 {
        if rm > 2 { illegal } else { (Ok(FpStep::Done), set_freg(c, rd, fsgnj64(f1, f2, rm))) }
    } else if funct7 == 0x70 {
        if rm == 0 {
            (Ok(FpStep::Done), set_xreg(c, rd, (((f1 as u32) as i32) as i64) as u64))
        } else if rm == 1 {
            (Ok(FpStep::Done), set_xreg(c, rd, fclass32(unboxed(f1))))
        } else {
            illegal
        }
    } else if funct7 == 0x71 {
        if rm == 0 {
            (Ok(FpStep::Done), set_xreg(c, rd, f1))
        } else if rm == 1 {
            (Ok(FpStep::Done), set_xreg(c, rd, fclass64(f1)))
        } else {
            illegal
        }
    } else if funct7 == 0x78 {
        (Ok(FpStep::Done), set_freg(c, rd, 0xFFFF_FFFF_0000_0000u64 | ((xreg(c, rs1) as u32) as u64)))
    } else if funct7 == 0x79 {
        (Ok(FpStep::Done), set_freg(c, rd, xreg(c, rs1)))
    } else if funct7 == 0x50 || funct7 == 0x51 {
        if rm > 2 { illegal } else { (Ok(FpStep::Host), c) }
    } else if funct7 == 0x60 || funct7 == 0x61 || funct7 == 0x68 || funct7 == 0x69 {
        if rs2 > 3 { illegal } else { (Ok(FpStep::Host), c) }
    } else if host_arith(funct7) {
        (Ok(FpStep::Host), c)
    } else {
        illegal
    }
}

impl Cpu {
    /// The exact part of OP-FP with register fields `rd`, `rs1`, `rs2`: an
    /// illegal encoding or a disabled FP unit is refused, sign injection,
    /// classification and register moves are done, and `FpStep::Host` is
    /// returned for an instruction that needs float arithmetic, with the
    /// hart left as it was.
    pub fn exec_op_fp_exact(&mut self, rd: usize, rs1: usize, rs2: usize, funct7: u32, rm: u32) -> (r: Result<FpStep, Trap>)
        requires
            rd < 32,
            rs1 < 32,
            rs2 < 32,
        ensures
            (r, final(self)@) == op_fp_exact_spec(old(self)@, rd, rs1, rs2, funct7, rm),
    {
        if !self.fpu_enabled() {
            return Err(Trap::IllegalInstruction(0));
        }
        let f1 = self.fregs[rs1];
        let f2 = self.fregs[rs2];
        if funct7 == 0x10 {
            if rm > 2 {
                return Err(Trap::IllegalInstruction(0));
            }
            let r = fsgnj_f32_bits(unbox_f32_bits(f1), unbox_f32_bits(f2), rm);
            self.write_freg(rd, box_f32_bits(r));
            Ok(FpStep::Done)
        } else if funct7 == 0x11 {
            if rm > 2 {
                return Err(Trap::IllegalInstruction(0));
            }
            self.write_freg(rd, fsgnj_f64_bits(f1, f2, rm));
            Ok(FpStep::Done)
        } else if funct7 == 0x70 {
            if rm == 0 {
                self.write_reg(rd, (((f1 as u32) as i32) as i64) as u64);
                Ok(FpStep::Done)
            } else if rm == 1 {
                self.write_reg(rd, fclass_f32_bits(unbox_f32_bits(f1)));
                Ok(FpStep::Done)
            } else {
                Err(Trap::IllegalInstruction(0))
            }
        } else if funct7 == 0x71 {
            if rm == 0 {
                self.write_reg(rd, f1);
                Ok(FpStep::Done)
            } else if rm == 1 {
                self.write_reg(rd, fclass_f64_bits(f1));
                Ok(FpStep::Done)
            } else {
                Err(Trap::IllegalInstruction(0))
            }
        } else if funct7 == 0x78 {
            let x = self.read_reg(rs1);
            self.write_freg(rd, box_f32_bits(x as u32));
            Ok(FpStep::Done)
        } else if funct7 == 0x79 {
            let x = self.read_reg(rs1);
            self.write_freg(rd, x);
            Ok(FpStep::Done)
        } else if funct7 == 0x50 || funct7 == 0x51 {
            if rm > 2 { Err(Trap::IllegalInstruction(0)) } else { Ok(FpStep::Host) }
        } else if funct7 == 0x60 || funct7 == 0x61 || funct7 == 0x68 || funct7 == 0x69 {
            if rs2 > 3 { Err(Trap::IllegalInstruction(0)) } else { Ok(FpStep::Host) }
        } else if funct7 == 0x00 || funct7 == 0x04 || funct7 == 0x08 || funct7 == 0x0C || funct7 == 0x2C
            || funct7 == 0x01 || funct7 == 0x05 || funct7 == 0x09 || funct7 == 0x0D || funct7 == 0x2D
            || funct7 == 0x14 || funct7 == 0x15 || funct7 == 0x20 || funct7 == 0x21
        {
            Ok(FpStep::Host)
        } else {
            Err(Trap::IllegalInstruction(0))
        }
    }
}

} // verus!
