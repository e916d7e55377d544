//! Control and status register file with privilege-aware access.

use vstd::prelude::*;
use std::collections::HashMap;
use super::types::{Trap, spec_privilege};

pub use super::types::Mode;

verus! {

broadcast use vstd::std_specs::hash::group_hash_axioms;

/// sstatus writable subset of mstatus: SIE, SPIE, SPP, FS, SUM, MXR.
pub const SSTATUS_WMASK: u64 = 0xC_6122;

/// mstatus/sstatus.FS == Dirty.
pub const MSTATUS_FS_DIRTY: u64 = 0x6000;
/// mstatus/sstatus.SD (RV64 bit 63): set when FS is Dirty.
pub const MSTATUS_SD: u64 = 0x8000_0000_0000_0000;
/// sstatus.UXL = 2 (64-bit) at bits 33:32.
pub const MSTATUS_UXL_64: u64 = 0x2_0000_0000;

/// Interrupt bits visible through sie/sip: SSIP, STIP, SEIP.
pub const SUPERVISOR_INT_MASK: u64 = 0x222;

// Common CSR addresses used by the privileged architecture.
pub const CSR_SATP: u16 = 0x180;

pub const CSR_MSTATUS: u16 = 0x300;
pub const CSR_MISA: u16 = 0x301;
pub const CSR_MEDELEG: u16 = 0x302;
pub const CSR_MIDELEG: u16 = 0x303;
pub const CSR_MIE: u16 = 0x304;
pub const CSR_MTVEC: u16 = 0x305;

pub const CSR_MEPC: u16 = 0x341;
pub const CSR_MCAUSE: u16 = 0x342;
pub const CSR_MTVAL: u16 = 0x343;
pub const CSR_MIP: u16 = 0x344;

// Supervisor CSRs
pub const CSR_SSTATUS: u16 = 0x100;
pub const CSR_SIE: u16 = 0x104;
pub const CSR_STVEC: u16 = 0x105;
pub const CSR_SSCRATCH: u16 = 0x140;
pub const CSR_SEPC: u16 = 0x141;
pub const CSR_SCAUSE: u16 = 0x142;
pub const CSR_STVAL: u16 = 0x143;
pub const CSR_SIP: u16 = 0x144;

// Floating-point CSRs (F/D extensions)
pub const CSR_FFLAGS: u16 = 0x001;
pub const CSR_FRM: u16 = 0x002;
pub const CSR_FCSR: u16 = 0x003;

// Additional CSRs used by xv6 and Sstc
pub const CSR_TIME: u16 = 0xC01;
pub const CSR_CYCLE: u16 = 0xC00;
pub const CSR_INSTRET: u16 = 0xC02;
pub const CSR_MCYCLE: u16 = 0xB00;
pub const CSR_MINSTRET: u16 = 0xB02;
pub const CSR_MENVCFG: u16 = 0x30A;
pub const CSR_STIMECMP: u16 = 0x14D;
pub const CSR_MCOUNTEREN: u16 = 0x306;

// Machine Information Registers (read-only)
pub const CSR_MVENDORID: u16 = 0xF11;
pub const CSR_MARCHID: u16 = 0xF12;
pub const CSR_MIMPID: u16 = 0xF13;
pub const CSR_MHARTID: u16 = 0xF14;

// PMP (Physical Memory Protection) CSRs
pub const CSR_PMPCFG0: u16 = 0x3A0;
pub const CSR_PMPCFG1: u16 = 0x3A1;
pub const CSR_PMPCFG2: u16 = 0x3A2;
pub const CSR_PMPCFG3: u16 = 0x3A3;
pub const CSR_PMPADDR0: u16 = 0x3B0;
pub const CSR_PMPADDR1: u16 = 0x3B1;
pub const CSR_PMPADDR2: u16 = 0x3B2;
pub const CSR_PMPADDR3: u16 = 0x3B3;
pub const CSR_PMPADDR4: u16 = 0x3B4;
pub const CSR_PMPADDR5: u16 = 0x3B5;
pub const CSR_PMPADDR6: u16 = 0x3B6;
pub const CSR_PMPADDR7: u16 = 0x3B7;

/// Read-only CSRs (csr[11:10]==0b11) that must trap on write.
pub const READ_ONLY_CSRS: [u16; 7] = [
    CSR_CYCLE,
    CSR_TIME,
    CSR_INSTRET,
    CSR_MVENDORID,
    CSR_MARCHID,
    CSR_MIMPID,
    CSR_MHARTID,
];

/// CSR address encoding: bits [11:10] == 0b11 means read-only.
pub open spec fn spec_read_only(addr: u16) -> bool {
    (addr >> 10u16) & 3 == 3
}

/// Lowest privilege level that may access a CSR (bits [9:8]).
pub open spec fn required_priv(addr: u16) -> u16 {
    (addr >> 8u16) & 3
}

/// FS field of mstatus.
pub open spec fn spec_fs(mstatus: u64) -> u64 {
    (mstatus >> 13u64) & 3
}

pub open spec fn slot(s: Seq<u64>, addr: u16) -> u64 {
    s[addr as int]
}

pub open spec fn set_slot(s: Seq<u64>, addr: u16, v: u64) -> Seq<u64> {
    s.update(addr as int, v)
}

/// mstatus with SD recomputed from FS.
pub open spec fn with_sd(m: u64) -> u64 {
    if spec_fs(m) == 3 { m | MSTATUS_SD } else { m & !MSTATUS_SD }
}

/// Value an sstatus read returns for a given mstatus.
pub open spec fn sstatus_of(m: u64) -> u64 {
    ((m & SSTATUS_WMASK) | MSTATUS_UXL_64) | (if spec_fs(m) == 3 { MSTATUS_SD } else { 0 })
}

/// The address is one of the floating-point CSRs.
pub open spec fn is_fp_csr(addr: u16) -> bool {
    addr == CSR_FFLAGS || addr == CSR_FRM || addr == CSR_FCSR
}

/// A read is defined: it traps before indexing, or the address is in the CSR space.
pub open spec fn read_defined(addr: u16, mode: Mode) -> bool {
    addr < 4096 || spec_privilege(mode) < required_priv(addr)
}

/// A write is defined: it traps before indexing, or the address is in the CSR space.
pub open spec fn write_defined(addr: u16, mode: Mode) -> bool {
    addr < 4096 || spec_read_only(addr) || spec_privilege(mode) < required_priv(addr)
}

/// Result of reading CSR `addr` in `mode` from storage `s`.
pub open spec fn read_spec(s: Seq<u64>, addr: u16, mode: Mode) -> Result<u64, Trap> {
    let m = slot(s, CSR_MSTATUS);
    if spec_privilege(mode) < required_priv(addr) {
        Err(Trap::IllegalInstruction(addr as u64))
    } else if addr == CSR_MSTATUS {
        Ok(with_sd(m))
    } else if addr == CSR_SSTATUS {
        Ok(sstatus_of(m))
    } else if addr == CSR_SIE {
        Ok(slot(s, CSR_MIE) & SUPERVISOR_INT_MASK)
    } else if addr == CSR_SIP {
        Ok(slot(s, CSR_MIP) & SUPERVISOR_INT_MASK)
    } else if is_fp_csr(addr) && spec_fs(m) == 0 {
        Err(Trap::IllegalInstruction(addr as u64))
    } else if addr == CSR_FFLAGS {
        Ok(slot(s, CSR_FCSR) & 0x1F)
    } else if addr == CSR_FRM {
        Ok((slot(s, CSR_FCSR) >> 5u64) & 0x7)
    } else {
        Ok(slot(s, addr))
    }
}

/// Storage after a floating-point CSR write marks FS and SD dirty.
pub open spec fn dirty_fs(s: Seq<u64>) -> Seq<u64> {
    set_slot(s, CSR_MSTATUS, slot(s, CSR_MSTATUS) | MSTATUS_FS_DIRTY | MSTATUS_SD)
}

/// Outcome of writing `val` to CSR `addr` in `mode`: `Err` leaves the storage unchanged.
pub open spec fn write_spec(s: Seq<u64>, addr: u16, val: u64, mode: Mode) -> Result<Seq<u64>, Trap> {
    let m = slot(s, CSR_MSTATUS);
    let fcsr = slot(s, CSR_FCSR);
    if spec_read_only(addr) || spec_privilege(mode) < required_priv(addr) {
        Err(Trap::IllegalInstruction(addr as u64))
    } else if addr == CSR_MSTATUS {
        Ok(set_slot(s, CSR_MSTATUS, if spec_fs(val & !MSTATUS_SD) == 3 { (val & !MSTATUS_SD) | MSTATUS_SD } else { val & !MSTATUS_SD }))
    } else if addr == CSR_SSTATUS {
        Ok(set_slot(s, CSR_MSTATUS, with_sd((m & !SSTATUS_WMASK) | (val & SSTATUS_WMASK))))
    } else if addr == CSR_SIE {
        Ok(set_slot(s, CSR_MIE, (slot(s, CSR_MIE) & !SUPERVISOR_INT_MASK) | (val & SUPERVISOR_INT_MASK)))
    } else if addr == CSR_SIP {
        Ok(set_slot(s, CSR_MIP, (slot(s, CSR_MIP) & !2u64) | (val & 2)))
    } else if is_fp_csr(addr) && spec_fs(m) == 0 {
        Err(Trap::IllegalInstruction(addr as u64))
    } else if addr == CSR_FFLAGS {
        Ok(dirty_fs(set_slot(s, CSR_FCSR, (fcsr & !0x1Fu64) | (val & 0x1F))))
    } else if addr == CSR_FRM {
        Ok(dirty_fs(set_slot(s, CSR_FCSR, (fcsr & !0xE0u64) | ((val & 0x7) << 5u64))))
    } else if addr == CSR_FCSR {
        Ok(dirty_fs(set_slot(s, CSR_FCSR, val & 0xFF)))
    } else {
        Ok(set_slot(s, addr, val))
    }
}

/// Map of the nonzero CSRs of a storage image.
pub open spec fn nonzero_map(s: Seq<u64>) -> Map<u16, u64> {
    Map::new(|k: u16| (k as int) < s.len() && s[k as int] != 0, |k: u16| s[k as int])
}

/// Storage restored from a map: mapped CSRs take their value, the others are 0.
pub open spec fn storage_from_map(m: Map<u16, u64>) -> Seq<u64> {
    Seq::new(4096, |i: int| if m.contains_key(i as u16) { m[i as u16] } else { 0u64 })
}

fn csr_is_read_only(addr: u16) -> (r: bool)
    ensures
        r == spec_read_only(addr),
{
    (addr >> 10) & 0x3 == 0x3
}

fn fs_field(mstatus: u64) -> (r: u64)
    ensures
        r == spec_fs(mstatus),
{
    (mstatus >> 13) & 0x3
}

/// Compact CSR storage with privilege-aware access helpers.
pub struct CsrFile {
    storage: [u64; 4096],
}

impl View for CsrFile {
    type V = Seq<u64>;

    closed spec fn view(&self) -> Seq<u64> {
        self.storage@
    }
}

/// A CSR file holds one value per 12-bit CSR address.
pub proof fn lemma_csr_file_len(c: &CsrFile)
    ensures
        c@.len() == 4096,
{
}

impl CsrFile {
    /// All CSRs zero.
    pub fn new() -> (r: Self)
        ensures
            r@ == Seq::new(4096, |i: int| 0u64),
    {
        let r = Self { storage: [0u64; 4096] };
        proof {
            assert(r@ =~= Seq::new(4096, |i: int| 0u64));
        }
        r
    }

    /// Raw storage slot, bypassing access checks.
    pub fn get(&self, index: usize) -> (r: u64)
        requires
            index < 4096,
        ensures
            r == self@[index as int],
    {
        self.storage[index]
    }

    /// Overwrite a raw storage slot, bypassing access checks.
    pub fn set(&mut self, index: usize, val: u64)
        requires
            index < 4096,
        ensures
            final(self)@ == old(self)@.update(index as int, val),
    {
        self.storage[index] = val;
    }

    /// Map of every nonzero CSR.
    pub fn export(&self) -> (r: HashMap<u16, u64>)
        ensures
            r@ == nonzero_map(self@),
    {
        let mut map: HashMap<u16, u64> = HashMap::new();
        let mut idx: usize = 0;
        while idx < 4096
            invariant
                idx <= 4096,
                self@.len() == 4096,
                map@ == Map::new(|k: u16| (k as int) < idx && self@[k as int] != 0, |k: u16| self@[k as int]),
            decreases 4096 - idx,
        {
            let val = self.storage[idx];
            if val != 0 {
                map.insert(idx as u16, val);
            }
            proof {
                assert(map@ =~= Map::new(|k: u16| (k as int) < idx + 1 && self@[k as int] != 0, |k: u16| self@[k as int]));
            }
            idx = idx + 1;
        }
        proof {
            assert(map@ =~= nonzero_map(self@));
        }
        map
    }

    /// Replace the whole storage: CSRs in the map take their value, all others are 0.
    /// Keys outside the 12-bit CSR space are ignored.
    pub fn import(&mut self, map: &HashMap<u16, u64>)
        ensures
            final(self)@ == storage_from_map(map@),
    {
        self.storage = [0u64; 4096];
        let mut idx: usize = 0;
        while idx < 4096
            invariant
                idx <= 4096,
                forall|j: int| 0 <= j < idx ==> self.storage@[j] == (if map@.contains_key(j as u16) { map@[j as u16] } else { 0u64 }),
                forall|j: int| idx <= j < 4096 ==> self.storage@[j] == 0,
            decreases 4096 - idx,
        {
            let key = idx as u16;
            assert(key as int == idx);
            let found = map.get(&key);
            match found {
                Some(v) => {
                    assert(map@.contains_key(key) && map@[key] == *v);
                    self.storage[idx] = *v;
                },
                None => {
                    assert(!map@.contains_key(key));
                },
            }
            assert(self@[idx as int] == (if map@.contains_key((idx as int) as u16) { map@[(idx as int) as u16] } else { 0u64 }));
            idx = idx + 1;
        }
        proof {
            assert(self@ =~= storage_from_map(map@));
        }
    }

    /// Privilege-checked CSR read.
    pub fn read(&self, addr: u16, mode: Mode) -> (r: Result<u64, Trap>)
        requires
            read_defined(addr, mode),
        ensures
            r == read_spec(self@, addr, mode),
    {
        let required_priv = (addr >> 8) & 0x3;
        let current_priv = mode.privilege_level();
        if current_priv < required_priv {
            return Err(Trap::IllegalInstruction(addr as u64));
        }
        if addr == CSR_MSTATUS {
            Ok(self.read_mstatus())
        } else if addr == CSR_SSTATUS {
            Ok(self.read_sstatus())
        } else if addr == CSR_SIE {
            let mie = self.storage[CSR_MIE as usize];
            Ok(mie & SUPERVISOR_INT_MASK)
        } else if addr == CSR_SIP {
            let mip = self.storage[CSR_MIP as usize];
            Ok(mip & SUPERVISOR_INT_MASK)
        } else if addr == CSR_FFLAGS {
            self.check_fp_csr(addr)?;
            Ok(self.storage[CSR_FCSR as usize] & 0x1F)
        } else if addr == CSR_FRM {
            self.check_fp_csr(addr)?;
            Ok((self.storage[CSR_FCSR as usize] >> 5) & 0x7)
        } else if addr == CSR_FCSR {
            self.check_fp_csr(addr)?;
            Ok(self.storage[CSR_FCSR as usize])
        } else {
            Ok(self.storage[addr as usize])
        }
    }

    /// Privilege-checked CSR write; read-only CSRs trap.
    pub fn write(&mut self, addr: u16, val: u64, mode: Mode) -> (r: Result<(), Trap>)
        requires
            write_defined(addr, mode),
        ensures
            match write_spec(old(self)@, addr, val, mode) {
                Ok(s) => r == Ok::<(), Trap>(()) && final(self)@ == s,
                Err(t) => r == Err::<(), Trap>(t) && final(self)@ == old(self)@,
            },
    {
        if csr_is_read_only(addr) {
            return Err(Trap::IllegalInstruction(addr as u64));
        }
        let required_priv = (addr >> 8) & 0x3;
        let current_priv = mode.privilege_level();
        if current_priv < required_priv {
            return Err(Trap::IllegalInstruction(addr as u64));
        }
        if addr == CSR_MSTATUS {
            self.write_mstatus(val);
        } else if addr == CSR_SSTATUS {
            let mut mstatus = self.storage[CSR_MSTATUS as usize];
            mstatus = (mstatus & !SSTATUS_WMASK) | (val & SSTATUS_WMASK);
            self.storage[CSR_MSTATUS as usize] = mstatus;
            self.sync_sd();
        } else if addr == CSR_SIE {
            let mut mie = self.storage[CSR_MIE as usize];
            mie = (mie & !SUPERVISOR_INT_MASK) | (val & SUPERVISOR_INT_MASK);
            self.storage[CSR_MIE as usize] = mie;
        } else if addr == CSR_SIP {
            let mut mip = self.storage[CSR_MIP as usize];
            mip = (mip & !2u64) | (val & 2);
            self.storage[CSR_MIP as usize] = mip;
        } else if addr == CSR_FFLAGS {
            self.check_fp_csr(addr)?;
            let fcsr = self.storage[CSR_FCSR as usize];
            self.storage[CSR_FCSR as usize] = (fcsr & !0x1Fu64) | (val & 0x1F);
            self.mark_fs_dirty();
        } else if addr == CSR_FRM {
            self.check_fp_csr(addr)?;
            let fcsr = self.storage[CSR_FCSR as usize];
            self.storage[CSR_FCSR as usize] = (fcsr & !0xE0u64) | ((val & 0x7) << 5);
            self.mark_fs_dirty();
        } else if addr == CSR_FCSR {
            self.check_fp_csr(addr)?;
            self.storage[CSR_FCSR as usize] = val & 0xFF;
            self.mark_fs_dirty();
        } else {
            self.storage[addr as usize] = val;
        }
        Ok(())
    }

    /// Mark mstatus.FS Dirty and SD after any FP register / fcsr write.
    pub(crate) fn mark_fs_dirty(&mut self)
        ensures
            final(self)@ == dirty_fs(old(self)@),
    {
        self.storage[CSR_MSTATUS as usize] = self.storage[CSR_MSTATUS as usize] | MSTATUS_FS_DIRTY | MSTATUS_SD;
    }

    fn check_fp_csr(&self, addr: u16) -> (r: Result<(), Trap>)
        ensures
            r == (if spec_fs(slot(self@, CSR_MSTATUS)) == 0 {
                Err::<(), Trap>(Trap::IllegalInstruction(addr as u64))
            } else {
                Ok::<(), Trap>(())
            }),
    {
        if fs_field(self.storage[CSR_MSTATUS as usize]) == 0 {
            return Err(Trap::IllegalInstruction(addr as u64));
        }
        Ok(())
    }

    fn sync_sd(&mut self)
        ensures
            final(self)@ == set_slot(old(self)@, CSR_MSTATUS, with_sd(slot(old(self)@, CSR_MSTATUS))),
    {
        let mstatus = self.storage[CSR_MSTATUS as usize];
        if fs_field(mstatus) == 3 {
            self.storage[CSR_MSTATUS as usize] = mstatus | MSTATUS_SD;
        } else {
            self.storage[CSR_MSTATUS as usize] = mstatus & !MSTATUS_SD;
        }
    }

    fn read_mstatus(&self) -> (r: u64)
        ensures
            r == with_sd(slot(self@, CSR_MSTATUS)),
    {
        let mut v = self.storage[CSR_MSTATUS as usize];
        if fs_field(v) == 3 {
            v = v | MSTATUS_SD;
        } else {
            v = v & !MSTATUS_SD;
        }
        v
    }

    fn read_sstatus(&self) -> (r: u64)
        ensures
            r == sstatus_of(slot(self@, CSR_MSTATUS)),
    {
        let mstatus = self.storage[CSR_MSTATUS as usize];
        let mut val = mstatus & SSTATUS_WMASK;
        val = val | MSTATUS_UXL_64;
        if fs_field(mstatus) == 3 {
            val = val | MSTATUS_SD;
        } else {
            val = val | 0;
            assert(((mstatus & SSTATUS_WMASK) | MSTATUS_UXL_64) | 0 == (mstatus & SSTATUS_WMASK) | MSTATUS_UXL_64) by (bit_vector);
        }
        val
    }

    fn write_mstatus(&mut self, val: u64)
        ensures
            final(self)@ == set_slot(old(self)@, CSR_MSTATUS,
                if spec_fs(val & !MSTATUS_SD) == 3 { (val & !MSTATUS_SD) | MSTATUS_SD } else { val & !MSTATUS_SD }),
    {
        let mut v = val & !MSTATUS_SD;
        if fs_field(v) == 3 {
            v = v | MSTATUS_SD;
        }
        self.storage[CSR_MSTATUS as usize] = v;
    }
}

/// Privilege and read-only encodings of the CSRs with special semantics.
pub proof fn lemma_csr_encodings()
    ensures
        required_priv(CSR_MSTATUS) == 3,
        required_priv(CSR_SSTATUS) == 1,
        required_priv(CSR_FFLAGS) == 0,
        required_priv(CSR_FRM) == 0,
        required_priv(CSR_FCSR) == 0,
        !spec_read_only(CSR_MSTATUS),
        !spec_read_only(CSR_SSTATUS),
        !spec_read_only(CSR_FFLAGS),
        !spec_read_only(CSR_FRM),
        !spec_read_only(CSR_FCSR),
{
    assert((0x300u16 >> 8u16) & 3 == 3 && (0x100u16 >> 8u16) & 3 == 1 && (1u16 >> 8u16) & 3 == 0
        && (2u16 >> 8u16) & 3 == 0 && (3u16 >> 8u16) & 3 == 0 && (0x300u16 >> 10u16) & 3 != 3
        && (0x100u16 >> 10u16) & 3 != 3 && (1u16 >> 10u16) & 3 != 3 && (2u16 >> 10u16) & 3 != 3
        && (3u16 >> 10u16) & 3 != 3) by (bit_vector);
}

/// Writes to a read-only CSR always trap with the CSR address and change nothing.
pub proof fn lemma_read_only_write_traps(s: Seq<u64>, addr: u16, val: u64, mode: Mode)
    requires
        spec_read_only(addr),
    ensures
        write_spec(s, addr, val, mode) == Err::<Seq<u64>, Trap>(Trap::IllegalInstruction(addr as u64)),
{
}

/// An mstatus read reports SD exactly when FS is Dirty, and the FS field as stored.
pub proof fn lemma_mstatus_sd_reflects_fs(s: Seq<u64>)
    ensures
        read_spec(s, CSR_MSTATUS, Mode::Machine) matches Ok(v) && {
            &&& (v & MSTATUS_SD != 0) == (spec_fs(slot(s, CSR_MSTATUS)) == 3)
            &&& spec_fs(v) == spec_fs(slot(s, CSR_MSTATUS))
        },
{
    lemma_csr_encodings();
    let m = slot(s, CSR_MSTATUS);
    assert(((m | 0x8000_0000_0000_0000u64) & 0x8000_0000_0000_0000u64 != 0)
        && ((m & !0x8000_0000_0000_0000u64) & 0x8000_0000_0000_0000u64 == 0)
        && (((m | 0x8000_0000_0000_0000u64) >> 13u64) & 3 == (m >> 13u64) & 3)
        && (((m & !0x8000_0000_0000_0000u64) >> 13u64) & 3 == (m >> 13u64) & 3)) by (bit_vector);
}

/// An sstatus read from S or M mode reports UXL = 2 (64-bit user mode), SD
/// exactly when FS is Dirty, and the FS field as stored.
pub proof fn lemma_sstatus_read(s: Seq<u64>, mode: Mode)
    requires
        mode != Mode::User,
    ensures
        read_spec(s, CSR_SSTATUS, mode) matches Ok(v) && {
            &&& (v >> 32u64) & 3 == 2
            &&& (v & MSTATUS_SD != 0) == (spec_fs(slot(s, CSR_MSTATUS)) == 3)
            &&& spec_fs(v) == spec_fs(slot(s, CSR_MSTATUS))
        },
{
    lemma_csr_encodings();
    let m = slot(s, CSR_MSTATUS);
    assert(((((m & 0xC_6122u64) | 0x2_0000_0000u64) | 0x8000_0000_0000_0000u64) >> 32u64) & 3 == 2
        && ((((m & 0xC_6122u64) | 0x2_0000_0000u64) | 0u64) >> 32u64) & 3 == 2
        && (((m & 0xC_6122u64) | 0x2_0000_0000u64) | 0x8000_0000_0000_0000u64) & 0x8000_0000_0000_0000u64 != 0
        && (((m & 0xC_6122u64) | 0x2_0000_0000u64) | 0u64) & 0x8000_0000_0000_0000u64 == 0
        && (((((m & 0xC_6122u64) | 0x2_0000_0000u64) | 0x8000_0000_0000_0000u64) >> 13u64) & 3 == (m >> 13u64) & 3)
        && (((((m & 0xC_6122u64) | 0x2_0000_0000u64) | 0u64) >> 13u64) & 3 == (m >> 13u64) & 3)) by (bit_vector);
}

/// A successful write to fflags, frm or fcsr leaves FS Dirty and SD set.
pub proof fn lemma_fp_write_dirties(s: Seq<u64>, addr: u16, val: u64, mode: Mode)
    requires
        s.len() == 4096,
        is_fp_csr(addr),
        write_spec(s, addr, val, mode) is Ok,
    ensures
        write_spec(s, addr, val, mode) matches Ok(t) && {
            &&& spec_fs(slot(t, CSR_MSTATUS)) == 3
            &&& slot(t, CSR_MSTATUS) & MSTATUS_SD != 0
        },
{
    lemma_csr_encodings();
    let m = slot(s, CSR_MSTATUS);
    assert((((m | 0x6000u64 | 0x8000_0000_0000_0000u64) >> 13u64) & 3 == 3)
        && ((m | 0x6000u64 | 0x8000_0000_0000_0000u64) & 0x8000_0000_0000_0000u64 != 0)) by (bit_vector);
}

/// A CSR without special semantics reads back the value last written to it.
pub proof fn lemma_plain_write_read(s: Seq<u64>, addr: u16, val: u64, mode: Mode)
    requires
        s.len() == 4096,
        addr < 4096,
        !spec_read_only(addr),
        spec_privilege(mode) >= required_priv(addr),
        addr != CSR_MSTATUS,
        addr != CSR_SSTATUS,
        addr != CSR_SIE,
        addr != CSR_SIP,
        !is_fp_csr(addr),
    ensures
        write_spec(s, addr, val, mode) matches Ok(t) && read_spec(t, addr, mode) == Ok::<u64, Trap>(val),
{
}

/// Importing the exported map of a storage image gives the image back.
pub proof fn lemma_export_import_roundtrip(s: Seq<u64>)
    requires
        s.len() == 4096,
    ensures
        storage_from_map(nonzero_map(s)) == s,
{
    assert forall|i: int| 0 <= i < 4096 implies storage_from_map(nonzero_map(s))[i] == s[i] by {
        assert((i as u16) as int == i);
    }
    assert(storage_from_map(nonzero_map(s)) =~= s);
}

/// A write to sie (0x104) from S- or M-mode succeeds and changes only the
/// supervisor enable bits 1, 5 and 9 of mie (0x304), which take the written
/// value's bits; every other bit of mie, and every other CSR, is kept.
pub proof fn lemma_sie_write_keeps_other_enables(s: Seq<u64>, val: u64, mode: Mode)
    requires
        s.len() == 4096,
        mode != Mode::User,
    ensures
        write_spec(s, 0x104u16, val, mode) is Ok,
        write_spec(s, 0x104u16, val, mode) matches Ok(t) ==> {
            &&& t.len() == 4096
            &&& t[0x304] & !0x222u64 == s[0x304] & !0x222u64
            &&& t[0x304] & 0x222u64 == val & 0x222u64
            &&& forall|a: int| 0 <= a < 4096 && a != 0x304 ==> t[a] == s[a]
            &&& read_spec(t, 0x104u16, mode) == Ok::<u64, Trap>(val & 0x222u64)
        },
{
    crate::bits::lemma_bit_facts(0, 0, 0, 0, 0, 0, s[0x304], val, 0, 0, 0, 0, 0, 0, 0, 0, 0, 0);
}

/// A write to sip (0x144) from S- or M-mode succeeds and changes only bit 1
/// (SSIP) of mip (0x344), which takes the written value's bit 1; every other
/// bit of mip, and every other CSR, is kept.
pub proof fn lemma_sip_write_sets_only_ssip(s: Seq<u64>, val: u64, mode: Mode)
    requires
        s.len() == 4096,
        mode != Mode::User,
    ensures
        write_spec(s, 0x144u16, val, mode) is Ok,
        write_spec(s, 0x144u16, val, mode) matches Ok(t) ==> {
            &&& t.len() == 4096
            &&& t[0x344] & !2u64 == s[0x344] & !2u64
            &&& t[0x344] & 2u64 == val & 2u64
            &&& forall|a: int| 0 <= a < 4096 && a != 0x344 ==> t[a] == s[a]
        },
{
    crate::bits::lemma_bit_facts(0, 0, 0, 0, 0, 0, 0, 0, 0, 0, 0, 0, s[0x344], val, 0, 0, 0, 0);
}

/// fflags (0x001) and frm (0x002) are two fields of fcsr (0x003): writing
/// one reads back the written bits through it (5 flag bits, 3 rounding-mode
/// bits) and leaves the other field as it was.
pub proof fn lemma_fflags_frm_fields(s: Seq<u64>, val: u64, mode: Mode)
    requires
        s.len() == 4096,
        spec_fs(slot(s, CSR_MSTATUS)) != 0,
    ensures
        write_spec(s, 0x001u16, val, mode) matches Ok(t) && {
            &&& read_spec(t, 0x001u16, mode) == Ok::<u64, Trap>(val & 0x1F)
            &&& read_spec(t, 0x002u16, mode) == read_spec(s, 0x002u16, mode)
        },
        write_spec(s, 0x002u16, val, mode) matches Ok(t) && {
            &&& read_spec(t, 0x002u16, mode) == Ok::<u64, Trap>(val & 0x7)
            &&& read_spec(t, 0x001u16, mode) == read_spec(s, 0x001u16, mode)
        },
{
    lemma_csr_encodings();
    lemma_fp_write_dirties(s, 0x001u16, val, mode);
    lemma_fp_write_dirties(s, 0x002u16, val, mode);
    crate::bits::lemma_bit_facts(0, 0, 0, 0, 0, 0, 0, 0, 0, 0, 0, 0, s[0x003], val, 0, 0, 0, 0);
}

} // verus!
