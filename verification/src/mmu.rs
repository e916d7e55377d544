//! Address translation for a hart's accesses: Sv39 and Sv48 page-table walks
//! through the bus.
//!
//! Page tables are read with the bus's own 8-byte reads. Accessed and dirty
//! bits are not set by the walk: a leaf with A clear, or with D clear on a
//! store, raises a page fault and leaves the update to the supervisor.

use vstd::prelude::*;
use crate::bus::Bus;
use crate::cpu::types::{Mode, Trap, spec_from_mpp};

verus! {

/// The kind of access being translated.
#[derive(Clone, Copy, Debug, PartialEq, Eq, Structural)]
pub enum AccessType {
    Instruction,
    Load,
    Store,
}

/// Physical page number field of satp and of a PTE (44 bits).
pub const PPN_MASK: u64 = 0xFFF_FFFF_FFFF;

/// The page fault that `access` at `vaddr` raises.
pub open spec fn page_fault(access: AccessType, vaddr: u64) -> Trap {
    match access {
        AccessType::Instruction => Trap::InstructionPageFault(vaddr),
        AccessType::Load => Trap::LoadPageFault(vaddr),
        AccessType::Store => Trap::StorePageFault(vaddr),
    }
}

/// The access fault that `access` at `vaddr` raises when a page-table read fails.
pub open spec fn access_fault(access: AccessType, vaddr: u64) -> Trap {
    match access {
        AccessType::Instruction => Trap::InstructionAccessFault(vaddr),
        AccessType::Load => Trap::LoadAccessFault(vaddr),
        AccessType::Store => Trap::StoreAccessFault(vaddr),
    }
}

/// The privilege an access runs at: loads and stores in M-mode with MPRV set
/// run at the privilege in MPP.
pub open spec fn effective_mode(mode: Mode, mstatus: u64, access: AccessType) -> Mode {
    if mode == Mode::Machine && access != AccessType::Instruction && (mstatus >> 17u64) & 1 == 1 {
        spec_from_mpp((mstatus >> 11u64) & 3)
    } else {
        mode
    }
}

/// Number of page-table levels satp selects: 3 for Sv39, 4 for Sv48, and 0
/// (no translation) for Bare or a mode this hart does not implement.
pub open spec fn paging_levels(satp: u64) -> u64 {
    if satp >> 60u64 == 8 {
        3
    } else if satp >> 60u64 == 9 {
        4
    } else {
        0
    }
}

/// Whether `vaddr` is canonical for a scheme of `levels` levels: the bits
/// above the top VPN field copy its top bit.
pub open spec fn canonical(vaddr: u64, levels: u64) -> bool {
    if levels == 3 {
        vaddr >> 38u64 == 0 || vaddr >> 38u64 == 0x3FF_FFFF
    } else {
        vaddr >> 47u64 == 0 || vaddr >> 47u64 == 0x1_FFFF
    }
}

/// The VPN field of `vaddr` that indexes the table at `level`.
pub open spec fn vpn(vaddr: u64, level: u64) -> u64 {
    (vaddr >> ((12 + 9 * level) as u64)) & 0x1FF
}

/// The low PPN bits a leaf at `level` must leave zero (superpage alignment).
pub open spec fn superpage_mask(level: u64) -> u64 {
    if level == 0 { 0 } else if level == 1 { 0x1FF } else if level == 2 { 0x3_FFFF } else { 0x7FF_FFFF }
}

/// The page-offset bits of a leaf at `level`.
pub open spec fn offset_mask(level: u64) -> u64 {
    if level == 0 { 0xFFF } else if level == 1 { 0x1F_FFFF } else if level == 2 { 0x3FFF_FFFF } else { 0x7F_FFFF_FFFF }
}

/// Whether a leaf PTE lets an access of kind `access` at privilege `eff`
/// through (R/W/X, U, and the SUM and MXR bits of mstatus).
pub open spec fn leaf_allows(pte: u64, eff: Mode, mstatus: u64, access: AccessType) -> bool {
    let r = pte & 2 != 0;
    let w = pte & 4 != 0;
    let x = pte & 8 != 0;
    let u = pte & 16 != 0;
    let sum = (mstatus >> 18u64) & 1 == 1;
    let mxr = (mstatus >> 19u64) & 1 == 1;
    let perm = match access {
        AccessType::Instruction => x,
        AccessType::Load => r || (mxr && x),
        AccessType::Store => w,
    };
    let privilege = if eff == Mode::User { u } else { !u || (sum && access != AccessType::Instruction) };
    perm && privilege
}

/// Whether a leaf PTE found at `level` gives a fault for `access`: a refused
/// permission, a misaligned superpage, A clear, or D clear on a store.
pub open spec fn leaf_faults(pte: u64, level: u64, eff: Mode, mstatus: u64, access: AccessType) -> bool {
    !leaf_allows(pte, eff, mstatus, access)
        || (pte >> 10u64) & superpage_mask(level) != 0
        || pte & 0x40 == 0
        || (access == AccessType::Store && pte & 0x80 == 0)
}

/// The physical address a leaf PTE at `level` maps `vaddr` to.
pub open spec fn leaf_address(pte: u64, level: u64, vaddr: u64) -> u64 {
    ((((pte >> 10u64) & PPN_MASK) << 12u64) & !offset_mask(level)) | (vaddr & offset_mask(level))
}

/// The walk from the table at `table`, looking at `level` and below: the
/// physical address or fault, and the bus after the PTE reads.
pub open spec fn walk<B: Bus>(s: B::State, table: u64, level: u64, vaddr: u64, eff: Mode, mstatus: u64, access: AccessType)
    -> (Result<u64, Trap>, B::State)
    decreases level,
{
    let pte_addr = vstd::wrapping::u64_specs::wrapping_add(table, vpn(vaddr, level) << 3u64);
    match B::read_outcome(s, pte_addr, 8) {
        (Err(_), s1) => (Err(access_fault(access, vaddr)), s1),
        (Ok(pte), s1) => {
            if pte & 1 == 0 || (pte & 2 == 0 && pte & 4 != 0) {
                (Err(page_fault(access, vaddr)), s1)
            } else if pte & 2 == 0 && pte & 8 == 0 {
                if level == 0 {
                    (Err(page_fault(access, vaddr)), s1)
                } else {
                    walk::<B>(s1, ((pte >> 10u64) & PPN_MASK) << 12u64, (level - 1) as u64, vaddr, eff, mstatus, access)
                }
            } else if leaf_faults(pte, level, eff, mstatus, access) {
                (Err(page_fault(access, vaddr)), s1)
            } else {
                (Ok(leaf_address(pte, level, vaddr)), s1)
            }
        },
    }
}

/// Translation of `vaddr` for an access of kind `access` by a hart in `mode`
/// with the given satp and mstatus: the physical address or the fault, and
/// the bus after the page-table reads. M-mode accesses and Bare satp use the
/// address as it is.
pub open spec fn translate_spec<B: Bus>(s: B::State, mode: Mode, satp: u64, mstatus: u64, vaddr: u64, access: AccessType)
    -> (Result<u64, Trap>, B::State)
{
    let eff = effective_mode(mode, mstatus, access);
    let levels = paging_levels(satp);
    if eff == Mode::Machine || levels == 0 {
        (Ok(vaddr), s)
    } else if !canonical(vaddr, levels) {
        (Err(page_fault(access, vaddr)), s)
    } else {
        walk::<B>(s, (satp & PPN_MASK) << 12u64, (levels - 1) as u64, vaddr, eff, mstatus, access)
    }
}

fn page_fault_for(access: AccessType, vaddr: u64) -> (r: Trap)
    ensures
        r == page_fault(access, vaddr),
{
    match access {
        AccessType::Instruction => Trap::InstructionPageFault(vaddr),
        AccessType::Load => Trap::LoadPageFault(vaddr),
        AccessType::Store => Trap::StorePageFault(vaddr),
    }
}

fn access_fault_for(access: AccessType, vaddr: u64) -> (r: Trap)
    ensures
        r == access_fault(access, vaddr),
{
    match access {
        AccessType::Instruction => Trap::InstructionAccessFault(vaddr),
        AccessType::Load => Trap::LoadAccessFault(vaddr),
        AccessType::Store => Trap::StoreAccessFault(vaddr),
    }
}

fn superpage_mask_of(level: u64) -> (r: u64)
    ensures
        r == superpage_mask(level),
{
    if level == 0 { 0 } else if level == 1 { 0x1FF } else if level == 2 { 0x3_FFFF } else { 0x7FF_FFFF }
}

fn offset_mask_of(level: u64) -> (r: u64)
    ensures
        r == offset_mask(level),
{
    if level == 0 { 0xFFF } else if level == 1 { 0x1F_FFFF } else if level == 2 { 0x3FFF_FFFF } else { 0x7F_FFFF_FFFF }
}

fn leaf_faults_exec(pte: u64, level: u64, eff: Mode, mstatus: u64, access: AccessType) -> (r: bool)
    ensures
        r == leaf_faults(pte, level, eff, mstatus, access),
{
    let r = pte & 2 != 0;
    let w = pte & 4 != 0;
    let x = pte & 8 != 0;
    let u = pte & 16 != 0;
    let sum = (mstatus >> 18u64) & 1 == 1;
    let mxr = (mstatus >> 19u64) & 1 == 1;
    let perm = match access {
        AccessType::Instruction => x,
        AccessType::Load => r || (mxr && x),
        AccessType::Store => w,
    };
    let privilege = if eff == Mode::User { u } else { !u || (sum && access != AccessType::Instruction) };
    !(perm && privilege)
        || (pte >> 10u64) & superpage_mask_of(level) != 0
        || pte & 0x40 == 0
        || (access == AccessType::Store && pte & 0x80 == 0)
}

fn walk_exec<B: Bus>(bus: &mut B, table: u64, level: u64, vaddr: u64, eff: Mode, mstatus: u64, access: AccessType)
    -> (r: Result<u64, Trap>)
    requires
        old(bus).inv(),
        level < 4,
    ensures
        final(bus).inv(),
        (r, final(bus).state()) == walk::<B>(old(bus).state(), table, level, vaddr, eff, mstatus, access),
    decreases level,
{
    let index = (vaddr >> (12 + 9 * level)) & 0x1FF;
    let pte_addr = table.wrapping_add(index << 3u64);
    let pte = match bus.read64(pte_addr) {
        Ok(v) => v,
        Err(_) => return Err(access_fault_for(access, vaddr)),
    };
    if pte & 1 == 0 || (pte & 2 == 0 && pte & 4 != 0) {
        Err(page_fault_for(access, vaddr))
    } else if pte & 2 == 0 && pte & 8 == 0 {
        if level == 0 {
            Err(page_fault_for(access, vaddr))
        } else {
            walk_exec(bus, ((pte >> 10u64) & PPN_MASK) << 12u64, level - 1, vaddr, eff, mstatus, access)
        }
    } else if leaf_faults_exec(pte, level, eff, mstatus, access) {
        Err(page_fault_for(access, vaddr))
    } else {
        let m = offset_mask_of(level);
        Ok(((((pte >> 10u64) & PPN_MASK) << 12u64) & !m) | (vaddr & m))
    }
}

/// Translate `vaddr` for an access of kind `access` by a hart in `mode` with
/// the given satp and mstatus, reading page tables through `bus`.
pub fn translate<B: Bus>(bus: &mut B, mode: Mode, satp: u64, mstatus: u64, vaddr: u64, access: AccessType)
    -> (r: Result<u64, Trap>)
    requires
        old(bus).inv(),
    ensures
        final(bus).inv(),
        (r, final(bus).state()) == translate_spec::<B>(old(bus).state(), mode, satp, mstatus, vaddr, access),
{
    let eff = if mode == Mode::Machine && access != AccessType::Instruction && (mstatus >> 17u64) & 1 == 1 {
        Mode::from_mpp((mstatus >> 11u64) & 3)
    } else {
        mode
    };
    let levels: u64 = if satp >> 60u64 == 8 { 3 } else if satp >> 60u64 == 9 { 4 } else { 0 };
    if eff == Mode::Machine || levels == 0 {
        return Ok(vaddr);
    }
    let ok = if levels == 3 {
        vaddr >> 38u64 == 0 || vaddr >> 38u64 == 0x3FF_FFFF
    } else {
        vaddr >> 47u64 == 0 || vaddr >> 47u64 == 0x1_FFFF
    };
    if !ok {
        return Err(page_fault_for(access, vaddr));
    }
    walk_exec(bus, (satp & PPN_MASK) << 12u64, levels - 1, vaddr, eff, mstatus, access)
}

} // verus!
