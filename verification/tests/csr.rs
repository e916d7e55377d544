use riscv_vm::cpu::csr::{
    CsrFile, CSR_FCSR, CSR_MCYCLE, CSR_MEPC, CSR_MINSTRET, CSR_MSTATUS, CSR_SIE, CSR_SSTATUS,
    MSTATUS_FS_DIRTY, MSTATUS_SD, READ_ONLY_CSRS, SSTATUS_WMASK,
};
use riscv_vm::cpu::types::{Mode, Trap};

#[test]
fn sstatus_read_includes_uxl() {
    let mut csrs = CsrFile::new();
    csrs.set(CSR_MSTATUS as usize, 1 << 13); // FS = Initial
    let sstatus = csrs.read(CSR_SSTATUS, Mode::Machine).unwrap();
    assert_eq!((sstatus >> 32) & 3, 2, "UXL must be 2 (RV64)");
    assert_eq!(sstatus & MSTATUS_SD, 0, "SD clear while FS is not Dirty");
    assert_eq!((sstatus >> 13) & 3, 1);
}

#[test]
fn sstatus_read_includes_sd_when_fs_dirty() {
    let mut csrs = CsrFile::new();
    csrs.set(CSR_MSTATUS as usize, MSTATUS_FS_DIRTY);
    let sstatus = csrs.read(CSR_SSTATUS, Mode::Machine).unwrap();
    assert_eq!((sstatus >> 13) & 3, 3);
    assert_ne!(sstatus & MSTATUS_SD, 0);
    assert_eq!((sstatus >> 32) & 3, 2);
    let mstatus = csrs.read(CSR_MSTATUS, Mode::Machine).unwrap();
    assert_ne!(mstatus & MSTATUS_SD, 0);
}

#[test]
fn read_only_csr_writes_are_illegal() {
    let mut csrs = CsrFile::new();
    for &addr in READ_ONLY_CSRS.iter() {
        let err = csrs.write(addr, 0xDEAD, Mode::Machine);
        assert!(
            matches!(err, Err(Trap::IllegalInstruction(a)) if a == addr as u64),
            "write to {addr:#x} should be IllegalInstruction, got {err:?}"
        );
    }
    // Encoding catch-all: any csr[11:10]==0b11
    assert!(matches!(
        csrs.write(0xC03, 1, Mode::Machine),
        Err(Trap::IllegalInstruction(0xC03))
    ));
    // Writable CSRs still succeed (mcycle/minstret are MRW, not URO).
    assert!(csrs.write(CSR_MSTATUS, 1 << 3, Mode::Machine).is_ok());
    assert!(csrs.write(CSR_MCYCLE, 1, Mode::Machine).is_ok());
    assert!(csrs.write(CSR_MINSTRET, 1, Mode::Machine).is_ok());
}

#[test]
fn fcsr_write_dirties_fs() {
    let mut csrs = CsrFile::new();
    csrs.set(CSR_MSTATUS as usize, 1 << 13); // Initial
    csrs.write(CSR_FCSR, 0x1, Mode::Machine).unwrap();
    let mstatus = csrs.read(CSR_MSTATUS, Mode::Machine).unwrap();
    assert_eq!(mstatus & MSTATUS_FS_DIRTY, MSTATUS_FS_DIRTY);
    assert_ne!(mstatus & MSTATUS_SD, 0);
}

#[test]
fn machine_csr_from_supervisor_traps() {
    let csrs = CsrFile::new();
    assert_eq!(
        csrs.read(CSR_MEPC, Mode::Supervisor),
        Err(Trap::IllegalInstruction(CSR_MEPC as u64))
    );
    assert_eq!(
        csrs.read(CSR_SSTATUS, Mode::User),
        Err(Trap::IllegalInstruction(CSR_SSTATUS as u64))
    );
}

#[test]
fn plain_csr_write_then_read() {
    let mut csrs = CsrFile::new();
    csrs.write(CSR_MEPC, 0x8000_1234, Mode::Machine).unwrap();
    assert_eq!(csrs.read(CSR_MEPC, Mode::Machine), Ok(0x8000_1234));
    assert_eq!(csrs.get(CSR_MEPC as usize), 0x8000_1234);
}

#[test]
fn sstatus_write_only_touches_supervisor_bits() {
    let mut csrs = CsrFile::new();
    csrs.set(CSR_MSTATUS as usize, 1 << 3); // MIE
    csrs.write(CSR_SSTATUS, u64::MAX, Mode::Supervisor).unwrap();
    let m = csrs.get(CSR_MSTATUS as usize);
    assert_eq!(m & (1 << 3), 1 << 3, "MIE untouched");
    assert_eq!(m & SSTATUS_WMASK, SSTATUS_WMASK);
}

#[test]
fn export_import_roundtrip() {
    let mut csrs = CsrFile::new();
    csrs.set(CSR_MEPC as usize, 42);
    csrs.set(CSR_SIE as usize, 0x222);
    let map = csrs.export();
    let mut other = CsrFile::new();
    other.import(&map);
    assert_eq!(other.get(CSR_MEPC as usize), 42);
    assert_eq!(other.get(CSR_SIE as usize), 0x222);
}
