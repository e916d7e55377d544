//! Hart state: registers, privilege mode, CSRs, trap entry and interrupt selection.

use vstd::prelude::*;
use std::collections::HashMap;
use super::csr::{
    CSR_MCAUSE, CSR_MEDELEG, CSR_MEPC, CSR_MHARTID, CSR_MIDELEG, CSR_MIE, CSR_MIP, CSR_MISA,
    CSR_FCSR, CSR_MSTATUS, CSR_MTVAL, CSR_MTVEC, CSR_SCAUSE, CSR_SEPC, CSR_STVAL, CSR_STVEC,
    CsrFile, slot, set_slot, read_spec, write_spec, read_defined, write_defined, nonzero_map,
    storage_from_map, lemma_csr_file_len, lemma_export_import_roundtrip,
};
use super::types::{Mode, Trap, spec_mpp};
use super::fp_bits::RM_DYN;

verus! {

/// misa: rv64imac_zicsr_zifencei.
pub const MISA_RV64IMAC_ZICSR_ZIFENCEI: u64 = 0x4000_0000_0018_1125;
/// mstatus at reset: the FP unit usable, in its Initial state (FS = 01).
pub const MSTATUS_FS_INITIAL: u64 = 0x2000;

/// Size of an LR/SC reservation granule in bytes.
pub const RESERVATION_GRANULE: u64 = 64;

/// `(is_interrupt, cause, tval)` of an architectural trap; `None` for host-only traps.
pub open spec fn trap_cause(t: Trap) -> Option<(bool, u64, u64)> {
    match t {
        Trap::InstructionAddressMisaligned(addr) => Some((false, 0, addr)),
        Trap::InstructionAccessFault(addr) => Some((false, 1, addr)),
        Trap::IllegalInstruction(bits) => Some((false, 2, bits)),
        Trap::Breakpoint => Some((false, 3, 0)),
        Trap::LoadAddressMisaligned(addr) => Some((false, 4, addr)),
        Trap::LoadAccessFault(addr) => Some((false, 5, addr)),
        Trap::StoreAddressMisaligned(addr) => Some((false, 6, addr)),
        Trap::StoreAccessFault(addr) => Some((false, 7, addr)),
        Trap::EnvironmentCallFromU => Some((false, 8, 0)),
        Trap::EnvironmentCallFromS => Some((false, 9, 0)),
        Trap::EnvironmentCallFromM => Some((false, 11, 0)),
        Trap::InstructionPageFault(addr) => Some((false, 12, addr)),
        Trap::LoadPageFault(addr) => Some((false, 13, addr)),
        Trap::StorePageFault(addr) => Some((false, 15, addr)),
        Trap::SupervisorSoftwareInterrupt => Some((true, 1, 0)),
        Trap::MachineSoftwareInterrupt => Some((true, 3, 0)),
        Trap::SupervisorTimerInterrupt => Some((true, 5, 0)),
        Trap::MachineTimerInterrupt => Some((true, 7, 0)),
        Trap::SupervisorExternalInterrupt => Some((true, 9, 0)),
        Trap::MachineExternalInterrupt => Some((true, 11, 0)),
        Trap::Wfi => None,
        Trap::RequestedTrap(_) => None,
        Trap::Fatal(_) => None,
    }
}

/// The trap is delegated to S-mode by medeleg/mideleg (never from M-mode).
pub open spec fn delegated(s: Seq<u64>, mode: Mode, irq: bool, cause: u64) -> bool {
    &&& mode != Mode::Machine
    &&& if irq {
        slot(s, CSR_MIDELEG) & (1u64 << cause) != 0
    } else {
        slot(s, CSR_MEDELEG) & (1u64 << cause) != 0
    }
}

/// Trap handler address for a trap vector register: vectored for interrupts
/// when the mode field is 1.
pub open spec fn trap_target(tvec: u64, irq: bool, cause: u64) -> u64 {
    let base = tvec & !3u64;
    if irq && tvec & 3 == 1 {
        vstd::wrapping::u64_specs::wrapping_add(base, (4 * cause) as u64)
    } else {
        base
    }
}

/// Value written to mcause/scause.
pub open spec fn cause_value(irq: bool, cause: u64) -> u64 {
    ((if irq { 1u64 } else { 0u64 }) << 63u64) | (cause & 0x7FFF_FFFF_FFFF_FFFF)
}

/// mstatus after an S-mode trap entry from `mode`: SPIE <= SIE, SIE <= 0, SPP <= mode.
pub open spec fn s_entry_status(m: u64, mode: Mode) -> u64 {
    let sie = (m >> 1u64) & 1;
    let m1 = (m & !(1u64 << 5u64)) | (sie << 5u64);
    let m2 = m1 & !(1u64 << 1u64);
    let spp: u64 = if mode == Mode::Supervisor { 1 } else { 0 };
    (m2 & !(1u64 << 8u64)) | (spp << 8u64)
}

/// mstatus after an M-mode trap entry from `mode`: MPIE <= MIE, MIE <= 0, MPP <= mode.
pub open spec fn m_entry_status(m: u64, mode: Mode) -> u64 {
    let mie = (m >> 3u64) & 1;
    let m1 = (m & !(1u64 << 7u64)) | (mie << 7u64);
    let m2 = m1 & !(1u64 << 3u64);
    (m2 & !(3u64 << 11u64)) | (spec_mpp(mode) << 11u64)
}

/// CSR image after an S-mode trap entry.
pub open spec fn s_entry_csrs(s: Seq<u64>, mode: Mode, pc: u64, irq: bool, cause: u64, tval: u64) -> Seq<u64> {
    let s1 = set_slot(s, CSR_SEPC, pc);
    let s2 = set_slot(s1, CSR_STVAL, tval);
    let s3 = set_slot(s2, CSR_SCAUSE, cause_value(irq, cause));
    set_slot(s3, CSR_MSTATUS, s_entry_status(slot(s, CSR_MSTATUS), mode))
}

/// CSR image after an M-mode trap entry.
pub open spec fn m_entry_csrs(s: Seq<u64>, mode: Mode, pc: u64, irq: bool, cause: u64, tval: u64) -> Seq<u64> {
    let s1 = set_slot(s, CSR_MEPC, pc);
    let s2 = set_slot(s1, CSR_MTVAL, tval);
    let s3 = set_slot(s2, CSR_MCAUSE, cause_value(irq, cause));
    set_slot(s3, CSR_MSTATUS, m_entry_status(slot(s, CSR_MSTATUS), mode))
}

/// Interrupt the hart takes next, in priority order MEI, MSI, MTI, SEI, SSI, STI.
pub open spec fn pending_interrupt(s: Seq<u64>, mode: Mode) -> Option<Trap> {
    let mstatus = slot(s, CSR_MSTATUS);
    let mip = slot(s, CSR_MIP);
    let mie = slot(s, CSR_MIE);
    let mideleg = slot(s, CSR_MIDELEG);
    let sie = mie & 0x222;
    let m_pending = (mip & mie) & !mideleg;
    let s_pending = (mip & sie) & mideleg;
    let m_enabled = if mode == Mode::Machine { (mstatus >> 3u64) & 1 == 1 } else { true };
    let s_enabled = if mode == Mode::Machine {
        false
    } else if mode == Mode::Supervisor {
        (mstatus >> 1u64) & 1 == 1
    } else {
        true
    };
    if m_enabled && m_pending & 0x800 != 0 {
        Some(Trap::MachineExternalInterrupt)
    } else if m_enabled && m_pending & 0x8 != 0 {
        Some(Trap::MachineSoftwareInterrupt)
    } else if m_enabled && m_pending & 0x80 != 0 {
        Some(Trap::MachineTimerInterrupt)
    } else if s_enabled && s_pending & 0x200 != 0 {
        Some(Trap::SupervisorExternalInterrupt)
    } else if s_enabled && s_pending & 0x2 != 0 {
        Some(Trap::SupervisorSoftwareInterrupt)
    } else if s_enabled && s_pending & 0x20 != 0 {
        Some(Trap::SupervisorTimerInterrupt)
    } else {
        None
    }
}

pub open spec fn granule(addr: u64) -> u64 {
    addr & !63u64
}

/// The hart after architectural entry into `trap` taken at `pc`: to S-mode
/// when delegated from below M-mode, else to M-mode; a host-only trap changes
/// nothing.
pub open spec fn after_trap(c: CpuView, trap: Trap, pc: u64) -> CpuView {
    match trap_cause(trap) {
        None => c,
        Some((irq, cause, tval)) => if delegated(c.csrs, c.mode, irq, cause) {
            CpuView {
                csrs: s_entry_csrs(c.csrs, c.mode, pc, irq, cause, tval),
                mode: Mode::Supervisor,
                pc: trap_target(slot(c.csrs, CSR_STVEC), irq, cause),
                ..c
            }
        } else {
            CpuView {
                csrs: m_entry_csrs(c.csrs, c.mode, pc, irq, cause, tval),
                mode: Mode::Machine,
                pc: trap_target(slot(c.csrs, CSR_MTVEC), irq, cause),
                ..c
            }
        },
    }
}

/// RISC-V hart state.
pub struct Cpu {
    pub regs: [u64; 32],
    /// F/D registers as raw 64-bit patterns (singles NaN-boxed).
    pub fregs: [u64; 32],
    pub pc: u64,
    /// Reservation set address for LR/SC, or None if no reservation.
    pub reservation: Option<u64>,
    /// CSR storage for Zicsr (12-bit CSR address space).
    pub csrs: CsrFile,
    /// Current privilege mode (Machine/Supervisor/User).
    pub mode: Mode,
    /// Poll counter for batching interrupt checks (rolls over every 256 instructions).
    pub poll_counter: u8,
    /// Enable/disable superblock execution.
    pub use_blocks: bool,
}

/// Abstract hart state.
pub struct CpuView {
    pub regs: Seq<u64>,
    pub fregs: Seq<u64>,
    pub pc: u64,
    pub reservation: Option<u64>,
    pub csrs: Seq<u64>,
    pub mode: Mode,
    pub poll_counter: u8,
    pub use_blocks: bool,
}

impl View for Cpu {
    type V = CpuView;

    open spec fn view(&self) -> CpuView {
        CpuView {
            regs: self.regs@,
            fregs: self.fregs@,
            pc: self.pc,
            reservation: self.reservation,
            csrs: self.csrs@,
            mode: self.mode,
            poll_counter: self.poll_counter,
            use_blocks: self.use_blocks,
        }
    }
}

impl Cpu {
    /// A hart in M-mode at `pc`, with misa and mhartid set, the FP unit usable
    /// (mstatus.FS = Initial), superblock execution on, and every other CSR zero.
    pub fn new(pc: u64, hart_id: u64) -> (r: Self)
        ensures
            r@.pc == pc,
            r@.mode == Mode::Machine,
            forall|i: int| 0 <= i < 32 ==> r@.regs[i] == 0,
            forall|i: int| 0 <= i < 32 ==> r@.fregs[i] == 0,
            r@.reservation is None,
            r@.poll_counter == 0,
            r@.use_blocks,
            r@.csrs == Seq::new(4096, |i: int| 0u64)
                .update(CSR_MISA as int, MISA_RV64IMAC_ZICSR_ZIFENCEI)
                .update(CSR_MHARTID as int, hart_id)
                .update(CSR_MSTATUS as int, MSTATUS_FS_INITIAL),
            (r@.csrs[CSR_MSTATUS as int] >> 13u64) & 3 != 0,
    {
        let mut csrs = CsrFile::new();
        csrs.set(CSR_MISA as usize, MISA_RV64IMAC_ZICSR_ZIFENCEI);
        csrs.set(CSR_MHARTID as usize, hart_id);
        csrs.set(CSR_MSTATUS as usize, MSTATUS_FS_INITIAL);
        let r = Self {
            regs: [0u64; 32],
            fregs: [0u64; 32],
            pc,
            reservation: None,
            csrs,
            mode: Mode::Machine,
            poll_counter: 0,
            use_blocks: true,
        };
        proof {
            assert(r@.csrs =~= Seq::new(4096, |i: int| 0u64)
                .update(CSR_MISA as int, MISA_RV64IMAC_ZICSR_ZIFENCEI)
                .update(CSR_MHARTID as int, hart_id)
                .update(CSR_MSTATUS as int, MSTATUS_FS_INITIAL));
            assert((0x2000u64 >> 13u64) & 3 != 0) by (bit_vector);
        }
        r
    }

    /// Map of the nonzero CSRs, for snapshots.
    pub fn export_csrs(&self) -> (r: HashMap<u16, u64>)
        ensures
            r@ == nonzero_map(self@.csrs),
    {
        self.csrs.export()
    }

    /// Restore CSRs from a map; CSRs not in the map become 0. No WARL checks.
    pub fn import_csrs(&mut self, map: &HashMap<u16, u64>)
        ensures
            final(self)@ == (CpuView { csrs: storage_from_map(map@), ..old(self)@ }),
    {
        self.csrs.import(map);
    }

    /// Integer register `reg`; x0 reads as zero.
    pub fn read_reg(&self, reg: usize) -> (r: u64)
        requires
            reg < 32,
        ensures
            r == (if reg == 0 { 0 } else { self@.regs[reg as int] }),
    {
        if reg == 0 {
            0
        } else {
            self.regs[reg]
        }
    }

    /// Write integer register `reg`; writes to x0 are discarded.
    pub fn write_reg(&mut self, reg: usize, val: u64)
        requires
            reg < 32,
        ensures
            reg == 0 ==> final(self)@ == old(self)@,
            reg != 0 ==> final(self)@ == (CpuView { regs: old(self)@.regs.update(reg as int, val), ..old(self)@ }),
    {
        if reg != 0 {
            self.regs[reg] = val;
        }
    }

    /// Start of the reservation granule containing `addr`.
    pub(crate) fn reservation_granule(addr: u64) -> (r: u64)
        ensures
            r == granule(addr),
    {
        addr & !(RESERVATION_GRANULE - 1)
    }

    /// Drop the reservation when a store hits its granule.
    pub(crate) fn clear_reservation_if_conflict(&mut self, addr: u64)
        ensures
            final(self)@.reservation == (match old(self)@.reservation {
                Some(res) => if granule(res) == granule(addr) { None } else { Some(res) },
                None => None,
            }),
            final(self)@ == (CpuView { reservation: final(self)@.reservation, ..old(self)@ }),
    {
        if let Some(res) = self.reservation {
            if Self::reservation_granule(res) == Self::reservation_granule(addr) {
                self.reservation = None;
            }
        }
    }

    /// CSR read in the current privilege mode.
    pub fn read_csr(&self, addr: u16) -> (r: Result<u64, Trap>)
        requires
            read_defined(addr, self@.mode),
        ensures
            r == read_spec(self@.csrs, addr, self@.mode),
    {
        self.csrs.read(addr, self.mode)
    }

    /// CSR write in the current privilege mode.
    pub fn write_csr(&mut self, addr: u16, val: u64) -> (r: Result<(), Trap>)
        requires
            write_defined(addr, old(self)@.mode),
        ensures
            match write_spec(old(self)@.csrs, addr, val, old(self)@.mode) {
                Ok(s) => r == Ok::<(), Trap>(()) && final(self)@ == (CpuView { csrs: s, ..old(self)@ }),
                Err(t) => r == Err::<(), Trap>(t) && final(self)@ == old(self)@,
            },
    {
        self.csrs.write(addr, val, self.mode)
    }

    /// Whether the FP unit is on (mstatus.FS nonzero).
    pub fn fpu_enabled(&self) -> (r: bool)
        ensures
            r == ((self@.csrs[CSR_MSTATUS as int] >> 13u64) & 3 != 0),
    {
        (self.csrs.get(CSR_MSTATUS as usize) >> 13u64) & 3 != 0
    }

    /// Mark the FP state dirty (mstatus.FS = 3).
    pub fn set_fs_dirty(&mut self)
        ensures
            final(self)@ == (CpuView {
                csrs: old(self)@.csrs.update(CSR_MSTATUS as int, old(self)@.csrs[CSR_MSTATUS as int] | (3u64 << 13u64)),
                ..old(self)@
            }),
    {
        let v = self.csrs.get(CSR_MSTATUS as usize);
        self.csrs.set(CSR_MSTATUS as usize, v | (3u64 << 13u64));
    }

    /// Accumulate exception flags into fcsr.fflags.
    pub fn accrue_fflags(&mut self, flags: u32)
        ensures
            flags != 0 ==> final(self)@ == (CpuView {
                csrs: old(self)@.csrs.update(CSR_FCSR as int, old(self)@.csrs[CSR_FCSR as int] | ((flags & 0x1F) as u64)),
                ..old(self)@
            }),
            flags == 0 ==> final(self)@ == old(self)@,
    {
        if flags != 0 {
            let v = self.csrs.get(CSR_FCSR as usize);
            self.csrs.set(CSR_FCSR as usize, v | ((flags & 0x1F) as u64));
        }
    }

    /// Effective rounding mode: `rm`, or frm from fcsr when `rm` is dynamic.
    pub fn effective_rm(&self, rm: u32) -> (r: u32)
        ensures
            r == (if rm == RM_DYN { ((self@.csrs[CSR_FCSR as int] >> 5u64) & 0x7) as u32 } else { rm }),
    {
        if rm == RM_DYN {
            ((self.csrs.get(CSR_FCSR as usize) >> 5u64) & 0x7) as u32
        } else {
            rm
        }
    }

    /// `(is_interrupt, cause, tval)` of a trap per the privileged spec, or `None`
    /// for host-only traps.
    fn trap_to_cause_tval(trap: &Trap) -> (r: Option<(bool, u64, u64)>)
        ensures
            r == trap_cause(*trap),
    {
        match *trap {
            Trap::InstructionAddressMisaligned(addr) => Some((false, 0, addr)),
            Trap::InstructionAccessFault(addr) => Some((false, 1, addr)),
            Trap::IllegalInstruction(bits) => Some((false, 2, bits)),
            Trap::Breakpoint => Some((false, 3, 0)),
            Trap::LoadAddressMisaligned(addr) => Some((false, 4, addr)),
            Trap::LoadAccessFault(addr) => Some((false, 5, addr)),
            Trap::StoreAddressMisaligned(addr) => Some((false, 6, addr)),
            Trap::StoreAccessFault(addr) => Some((false, 7, addr)),
            Trap::EnvironmentCallFromU => Some((false, 8, 0)),
            Trap::EnvironmentCallFromS => Some((false, 9, 0)),
            Trap::EnvironmentCallFromM => Some((false, 11, 0)),
            Trap::InstructionPageFault(addr) => Some((false, 12, addr)),
            Trap::LoadPageFault(addr) => Some((false, 13, addr)),
            Trap::StorePageFault(addr) => Some((false, 15, addr)),
            Trap::SupervisorSoftwareInterrupt => Some((true, 1, 0)),
            Trap::MachineSoftwareInterrupt => Some((true, 3, 0)),
            Trap::SupervisorTimerInterrupt => Some((true, 5, 0)),
            Trap::MachineTimerInterrupt => Some((true, 7, 0)),
            Trap::SupervisorExternalInterrupt => Some((true, 9, 0)),
            Trap::MachineExternalInterrupt => Some((true, 11, 0)),
            Trap::Wfi => None,
            Trap::RequestedTrap(_) => None,
            Trap::Fatal(_) => None,
        }
    }

    /// Architectural trap entry. The trap goes to S-mode when delegated by
    /// medeleg/mideleg from below M-mode, otherwise to M-mode; host-only traps
    /// change nothing. The trap is always handed back as the error.
    pub fn handle_trap<T>(&mut self, trap: Trap, pc: u64, _insn_raw: Option<u32>) -> (r: Result<T, Trap>)
        ensures
            r == Err::<T, Trap>(trap),
            final(self)@ == after_trap(old(self)@, trap, pc),
    {
        let ghost s0 = self.csrs@;
        let ghost mode0 = self.mode;
        proof {
            lemma_csr_file_len(&self.csrs);
        }
        if let Some((is_interrupt, cause, tval)) = Self::trap_to_cause_tval(&trap) {
            let medeleg = self.csrs.get(CSR_MEDELEG as usize);
            let mideleg = self.csrs.get(CSR_MIDELEG as usize);
            let deleg_bit = 1u64 << cause;
            let deleg_to_s = match self.mode {
                Mode::Machine => false,
                _ => {
                    if is_interrupt {
                        (mideleg & deleg_bit) != 0
                    } else {
                        (medeleg & deleg_bit) != 0
                    }
                },
            };
            let irq_bit: u64 = if is_interrupt { 1 } else { 0 };
            if deleg_to_s {
                self.csrs.set(CSR_SEPC as usize, pc);
                self.csrs.set(CSR_STVAL as usize, tval);
                let scause_val = (irq_bit << 63) | (cause & 0x7FFF_FFFF_FFFF_FFFF);
                self.csrs.set(CSR_SCAUSE as usize, scause_val);
                let mut mstatus = self.csrs.get(CSR_MSTATUS as usize);
                let sie = (mstatus >> 1) & 1;
                mstatus = (mstatus & !(1u64 << 5)) | (sie << 5);
                mstatus = mstatus & !(1u64 << 1);
                let spp: u64 = match self.mode {
                    Mode::Supervisor => 1,
                    _ => 0,
                };
                mstatus = (mstatus & !(1u64 << 8)) | (spp << 8);
                self.csrs.set(CSR_MSTATUS as usize, mstatus);
                self.mode = Mode::Supervisor;
                let stvec = self.csrs.get(CSR_STVEC as usize);
                let base = stvec & !0b11u64;
                let mode = stvec & 0b11;
                let vectored = mode == 1;
                let target_pc = if is_interrupt && vectored {
                    base.wrapping_add(4 * cause)
                } else {
                    base
                };
                self.pc = target_pc;
                proof {
                    assert(self.csrs@ =~= s_entry_csrs(s0, mode0, pc, is_interrupt, cause, tval));
                }
            } else {
                self.csrs.set(CSR_MEPC as usize, pc);
                self.csrs.set(CSR_MTVAL as usize, tval);
                let mcause_val = (irq_bit << 63) | (cause & 0x7FFF_FFFF_FFFF_FFFF);
                self.csrs.set(CSR_MCAUSE as usize, mcause_val);
                let mut mstatus = self.csrs.get(CSR_MSTATUS as usize);
                let mie = (mstatus >> 3) & 1;
                mstatus = (mstatus & !(1u64 << 7)) | (mie << 7);
                mstatus = mstatus & !(1u64 << 3);
                let mpp = self.mode.to_mpp();
                mstatus = (mstatus & !(0b11u64 << 11)) | (mpp << 11);
                self.csrs.set(CSR_MSTATUS as usize, mstatus);
                self.mode = Mode::Machine;
                let mtvec = self.csrs.get(CSR_MTVEC as usize);
                let base = mtvec & !0b11u64;
                let mode = mtvec & 0b11;
                let vectored = mode == 1;
                let target_pc = if is_interrupt && vectored {
                    base.wrapping_add(4 * cause)
                } else {
                    base
                };
                self.pc = target_pc;
                proof {
                    assert(self.csrs@ =~= m_entry_csrs(s0, mode0, pc, is_interrupt, cause, tval));
                }
            }
        }
        Err(trap)
    }

    /// The interrupt the hart takes next given mip/mie/mideleg, the global
    /// enables in mstatus and the current mode, or `None`.
    pub(crate) fn check_pending_interrupt(&self) -> (r: Option<Trap>)
        ensures
            r == pending_interrupt(self@.csrs, self@.mode),
    {
        let mstatus = self.csrs.get(CSR_MSTATUS as usize);
        let mip = self.csrs.get(CSR_MIP as usize);
        let mie = self.csrs.get(CSR_MIE as usize);
        let mideleg = self.csrs.get(CSR_MIDELEG as usize);
        let sie_mask: u64 = 0x222;
        assert(1u64 << 11u64 == 0x800 && 1u64 << 3u64 == 8 && 1u64 << 7u64 == 0x80 && 1u64 << 9u64 == 0x200
            && 1u64 << 1u64 == 2 && 1u64 << 5u64 == 0x20) by (bit_vector);
        let sie = mie & sie_mask;
        let m_pending = (mip & mie) & !mideleg;
        let s_pending = (mip & sie) & mideleg;
        let m_enabled = match self.mode {
            Mode::Machine => ((mstatus >> 3) & 1) == 1,
            _ => true,
        };
        if m_enabled {
            if (m_pending & (1u64 << 11)) != 0 {
                return Some(Trap::MachineExternalInterrupt);
            }
            if (m_pending & (1u64 << 3)) != 0 {
                return Some(Trap::MachineSoftwareInterrupt);
            }
            if (m_pending & (1u64 << 7)) != 0 {
                return Some(Trap::MachineTimerInterrupt);
            }
        }
        let s_enabled = match self.mode {
            Mode::Machine => false,
            Mode::Supervisor => ((mstatus >> 1) & 1) == 1,
            Mode::User => true,
        };
        if s_enabled {
            if (s_pending & (1u64 << 9)) != 0 {
                return Some(Trap::SupervisorExternalInterrupt);
            }
            if (s_pending & (1u64 << 1)) != 0 {
                return Some(Trap::SupervisorSoftwareInterrupt);
            }
            if (s_pending & (1u64 << 5)) != 0 {
                return Some(Trap::SupervisorTimerInterrupt);
            }
        }
        None
    }
}

/// Traps taken in M-mode are never delegated.
pub proof fn lemma_machine_traps_not_delegated(s: Seq<u64>, irq: bool, cause: u64)
    ensures
        !delegated(s, Mode::Machine, irq, cause),
{
}

/// M-mode trap entry clears MIE, saves it in MPIE, records the previous mode
/// in MPP and keeps every other mstatus bit.
pub proof fn lemma_m_entry_status(m: u64, mode: Mode)
    ensures
        (m_entry_status(m, mode) >> 3u64) & 1 == 0,
        (m_entry_status(m, mode) >> 7u64) & 1 == (m >> 3u64) & 1,
        (m_entry_status(m, mode) >> 11u64) & 3 == spec_mpp(mode),
        m_entry_status(m, mode) & !0x1888u64 == m & !0x1888u64,
{
    let p = spec_mpp(mode);
    assert(p <= 3);
    assert(({
        let mie = (m >> 3u64) & 1;
        let m1 = (m & !(1u64 << 7u64)) | (mie << 7u64);
        let m2 = m1 & !(1u64 << 3u64);
        let r = (m2 & !(3u64 << 11u64)) | (p << 11u64);
        &&& (r >> 3u64) & 1 == 0
        &&& (r >> 7u64) & 1 == (m >> 3u64) & 1
        &&& (r >> 11u64) & 3 == p
        &&& r & !0x1888u64 == m & !0x1888u64
    })) by (bit_vector)
        requires p <= 3;
}

/// S-mode trap entry clears SIE, saves it in SPIE, records whether the
/// previous mode was S in SPP and keeps every other mstatus bit.
pub proof fn lemma_s_entry_status(m: u64, mode: Mode)
    ensures
        (s_entry_status(m, mode) >> 1u64) & 1 == 0,
        (s_entry_status(m, mode) >> 5u64) & 1 == (m >> 1u64) & 1,
        (s_entry_status(m, mode) >> 8u64) & 1 == (if mode == Mode::Supervisor { 1u64 } else { 0u64 }),
        s_entry_status(m, mode) & !0x122u64 == m & !0x122u64,
{
    let p: u64 = if mode == Mode::Supervisor { 1 } else { 0 };
    assert(({
        let sie = (m >> 1u64) & 1;
        let m1 = (m & !(1u64 << 5u64)) | (sie << 5u64);
        let m2 = m1 & !(1u64 << 1u64);
        let r = (m2 & !(1u64 << 8u64)) | (p << 8u64);
        &&& (r >> 1u64) & 1 == 0
        &&& (r >> 5u64) & 1 == (m >> 1u64) & 1
        &&& (r >> 8u64) & 1 == p
        &&& r & !0x122u64 == m & !0x122u64
    })) by (bit_vector)
        requires p <= 1;
}

/// In M-mode only machine-level interrupts are taken.
pub proof fn lemma_machine_mode_takes_machine_interrupts(s: Seq<u64>)
    ensures
        pending_interrupt(s, Mode::Machine) matches Some(t) ==> (t == Trap::MachineExternalInterrupt
            || t == Trap::MachineSoftwareInterrupt || t == Trap::MachineTimerInterrupt),
{
}

/// Restoring a hart's CSRs from the map `export_csrs` gives leaves the hart
/// unchanged: absent CSRs were zero, and every exported value comes back.
pub proof fn lemma_csr_snapshot_roundtrip(cpu: &Cpu)
    ensures
        (CpuView { csrs: storage_from_map(nonzero_map(cpu@.csrs)), ..cpu@ }) == cpu@,
{
    lemma_csr_file_len(&cpu.csrs);
    lemma_export_import_roundtrip(cpu@.csrs);
}

/// Below M-mode, an interrupt is taken in S-mode exactly when bit `cause` of
/// mideleg (0x303) is set, and an exception exactly when bit `cause` of
/// medeleg (0x302) is set, whatever the other register holds; from M-mode
/// every trap is taken in M-mode.
pub proof fn lemma_delegation_register(c: CpuView, trap: Trap, pc: u64)
    requires
        c.csrs.len() == 4096,
        trap_cause(trap) is Some,
    ensures
        ({
            let (irq, cause, _) = trap_cause(trap).unwrap();
            let deleg = if irq { c.csrs[0x303] } else { c.csrs[0x302] };
            let to_s = c.mode != Mode::Machine && (deleg >> cause) & 1 == 1;
            &&& (after_trap(c, trap, pc).mode == Mode::Supervisor) == to_s
            &&& (after_trap(c, trap, pc).mode == Mode::Machine) == !to_s
        }),
{
    let (irq, cause, _) = trap_cause(trap).unwrap();
    assert(cause < 64);
    let deleg = if irq { c.csrs[0x303] } else { c.csrs[0x302] };
    crate::bits::lemma_bit_facts(0, 0, 0, 0, deleg, cause, 0, 0, 0, 0, 0, 0, 0, 0, 0, 0, 0, 0);
}

/// The mcause/scause value the privileged architecture assigns to a trap:
/// bit 63 set for interrupts, then the exception or interrupt code.
pub open spec fn isa_cause_code(t: Trap) -> u64 {
    match t {
        Trap::InstructionAddressMisaligned(_) => 0,
        Trap::InstructionAccessFault(_) => 1,
        Trap::IllegalInstruction(_) => 2,
        Trap::Breakpoint => 3,
        Trap::LoadAddressMisaligned(_) => 4,
        Trap::LoadAccessFault(_) => 5,
        Trap::StoreAddressMisaligned(_) => 6,
        Trap::StoreAccessFault(_) => 7,
        Trap::EnvironmentCallFromU => 8,
        Trap::EnvironmentCallFromS => 9,
        Trap::EnvironmentCallFromM => 11,
        Trap::InstructionPageFault(_) => 12,
        Trap::LoadPageFault(_) => 13,
        Trap::StorePageFault(_) => 15,
        Trap::SupervisorSoftwareInterrupt => 0x8000_0000_0000_0001,
        Trap::MachineSoftwareInterrupt => 0x8000_0000_0000_0003,
        Trap::SupervisorTimerInterrupt => 0x8000_0000_0000_0005,
        Trap::MachineTimerInterrupt => 0x8000_0000_0000_0007,
        Trap::SupervisorExternalInterrupt => 0x8000_0000_0000_0009,
        Trap::MachineExternalInterrupt => 0x8000_0000_0000_000B,
        _ => 0,
    }
}

/// Trap entry records the trap where its privilege level looks for it: in
/// S-mode, sepc (0x141) holds the trapping pc and scause (0x142) the
/// architectural cause code; in M-mode, mepc (0x341) and mcause (0x342).
pub proof fn lemma_trap_entry_records(c: CpuView, trap: Trap, pc: u64)
    requires
        c.csrs.len() == 4096,
        trap_cause(trap) is Some,
    ensures
        ({
            let t = after_trap(c, trap, pc);
            &&& t.mode == Mode::Supervisor ==> t.csrs[0x141] == pc && t.csrs[0x142] == isa_cause_code(trap)
            &&& t.mode == Mode::Machine ==> t.csrs[0x341] == pc && t.csrs[0x342] == isa_cause_code(trap)
        }),
{
    let (irq, cause, _) = trap_cause(trap).unwrap();
    assert(cause < 64);
    crate::bits::lemma_bit_facts(0, 0, 0, 0, 0, cause, 0, 0, 0, 0, 0, 0, 0, 0, 0, 0, 0, 0);
}

/// After trap entry the hart runs at the trap vector of the level that took
/// the trap (stvec 0x105 in S-mode, mtvec 0x305 in M-mode) with the vector's
/// two mode bits cleared; in vectored mode (mode bits 1) an interrupt with
/// code n goes to base + 4 * n instead.
pub proof fn lemma_trap_vector(c: CpuView, trap: Trap, pc: u64)
    requires
        c.csrs.len() == 4096,
        trap_cause(trap) is Some,
    ensures
        ({
            let t = after_trap(c, trap, pc);
            let code = isa_cause_code(trap);
            let irq = code >= 0x8000_0000_0000_0000u64;
            let n = code % 0x8000_0000_0000_0000u64;
            let tvec = if t.mode == Mode::Supervisor { c.csrs[0x105] } else { c.csrs[0x305] };
            let base = (tvec - tvec % 4) as u64;
            &&& t.mode == Mode::Supervisor || t.mode == Mode::Machine
            &&& t.pc == if irq && tvec % 4 == 1 { vstd::wrapping::u64_specs::wrapping_add(base, (4 * n) as u64) } else { base }
        }),
{
    let (irq, cause, _) = trap_cause(trap).unwrap();
    crate::bits::lemma_bit_facts(0, 0, 0, 0, 0, 0, 0, 0, 0, 0, 0, c.csrs[0x105], 0, 0, 0, 0, 0, 0);
    crate::bits::lemma_bit_facts(0, 0, 0, 0, 0, 0, 0, 0, 0, 0, 0, c.csrs[0x305], 0, 0, 0, 0, 0, 0);
}

} // verus!
