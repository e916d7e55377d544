use riscv_vm::cpu::csr::{
    CSR_MCAUSE, CSR_MEDELEG, CSR_MEPC, CSR_MHARTID, CSR_MIDELEG, CSR_MISA, CSR_MSTATUS, CSR_MTVAL,
    CSR_MTVEC, CSR_SCAUSE, CSR_SEPC, CSR_STVEC,
};
use riscv_vm::cpu::hart::{Cpu, MISA_RV64IMAC_ZICSR_ZIFENCEI};
use riscv_vm::cpu::types::{Mode, Trap};

#[test]
fn test_cpu_array_no_false_sharing() {
    // Create multiple CPUs in a Vec to simulate multi-hart scenario
    let cpus: Vec<Cpu> = (0..4).map(|i| Cpu::new(0x8000_0000, i as u64)).collect();

    // Elements of a Vec are laid out back to back, so adjacent CPUs are
    // exactly one Cpu apart; that distance must cover a cache line.
    assert_eq!(cpus.len(), 4);
    for i in 0..cpus.len() - 1 {
        let distance = std::mem::size_of::<Cpu>();
        assert!(
            distance >= 64,
            "CPUs {} and {} are only {} bytes apart (need >= 64 for cache-line isolation)",
            i,
            i + 1,
            distance
        );
        assert_eq!(cpus[i + 1].read_csr(riscv_vm::cpu::csr::CSR_MHARTID), Ok(i as u64 + 1));
    }
}

#[test]
fn new_hart_identity_csrs() {
    let cpu = Cpu::new(0x8000_0000, 3);
    assert_eq!(cpu.pc, 0x8000_0000);
    assert_eq!(cpu.mode, Mode::Machine);
    assert_eq!(cpu.read_csr(CSR_MHARTID), Ok(3));
    assert_eq!(cpu.read_csr(CSR_MISA), Ok(MISA_RV64IMAC_ZICSR_ZIFENCEI));
    assert_eq!(cpu.read_reg(0), 0);
}

#[test]
fn x0_is_hardwired_to_zero() {
    let mut cpu = Cpu::new(0, 0);
    cpu.write_reg(0, 99);
    cpu.write_reg(5, 7);
    assert_eq!(cpu.read_reg(0), 0);
    assert_eq!(cpu.read_reg(5), 7);
}

#[test]
fn machine_trap_entry() {
    let mut cpu = Cpu::new(0x8000_0000, 0);
    cpu.write_csr(CSR_MTVEC, 0x8000_0100).unwrap();
    cpu.write_csr(CSR_MSTATUS, 1 << 3).unwrap(); // MIE
    let r: Result<(), Trap> = cpu.handle_trap(Trap::IllegalInstruction(0xbad), 0x8000_0004, None);
    assert_eq!(r, Err(Trap::IllegalInstruction(0xbad)));
    assert_eq!(cpu.pc, 0x8000_0100);
    assert_eq!(cpu.mode, Mode::Machine);
    assert_eq!(cpu.read_csr(CSR_MEPC), Ok(0x8000_0004));
    assert_eq!(cpu.read_csr(CSR_MCAUSE), Ok(2));
    assert_eq!(cpu.read_csr(CSR_MTVAL), Ok(0xbad));
    let mstatus = cpu.read_csr(CSR_MSTATUS).unwrap();
    assert_eq!((mstatus >> 3) & 1, 0, "MIE cleared");
    assert_eq!((mstatus >> 7) & 1, 1, "MPIE holds old MIE");
    assert_eq!((mstatus >> 11) & 3, 3, "MPP = Machine");
}

#[test]
fn vectored_interrupt_entry() {
    let mut cpu = Cpu::new(0, 0);
    cpu.write_csr(CSR_MTVEC, 0x1000 | 1).unwrap();
    let _ = cpu.handle_trap::<()>(Trap::MachineTimerInterrupt, 0x40, None);
    assert_eq!(cpu.pc, 0x1000 + 4 * 7);
    assert_eq!(cpu.read_csr(CSR_MCAUSE), Ok((1u64 << 63) | 7));
}

#[test]
fn delegated_trap_goes_to_supervisor() {
    let mut cpu = Cpu::new(0, 0);
    cpu.write_csr(CSR_STVEC, 0x2000).unwrap();
    cpu.write_csr(CSR_MEDELEG, 1 << 8).unwrap();
    cpu.write_csr(CSR_MIDELEG, 0).unwrap();
    cpu.mode = Mode::User;
    let _ = cpu.handle_trap::<u64>(Trap::EnvironmentCallFromU, 0x500, None);
    assert_eq!(cpu.mode, Mode::Supervisor);
    assert_eq!(cpu.pc, 0x2000);
    cpu.mode = Mode::Machine;
    assert_eq!(cpu.read_csr(CSR_SEPC), Ok(0x500));
    assert_eq!(cpu.read_csr(CSR_SCAUSE), Ok(8));
    let mstatus = cpu.read_csr(CSR_MSTATUS).unwrap();
    assert_eq!((mstatus >> 8) & 1, 0, "SPP = User");
}

#[test]
fn machine_mode_traps_are_not_delegated() {
    let mut cpu = Cpu::new(0, 0);
    cpu.write_csr(CSR_MEDELEG, u64::MAX).unwrap();
    cpu.write_csr(CSR_MTVEC, 0x3000).unwrap();
    let _ = cpu.handle_trap::<()>(Trap::Breakpoint, 0x10, None);
    assert_eq!(cpu.mode, Mode::Machine);
    assert_eq!(cpu.pc, 0x3000);
    assert_eq!(cpu.read_csr(CSR_MCAUSE), Ok(3));
}

#[test]
fn host_traps_leave_state_unchanged() {
    let mut cpu = Cpu::new(0x42, 0);
    let before = cpu.export_csrs();
    let r = cpu.handle_trap::<()>(Trap::RequestedTrap(9), 0x99, None);
    assert_eq!(r, Err(Trap::RequestedTrap(9)));
    assert_eq!(cpu.pc, 0x42);
    assert_eq!(cpu.export_csrs(), before);
}

#[test]
fn csr_snapshot_roundtrip() {
    let mut cpu = Cpu::new(0, 1);
    cpu.write_csr(CSR_MEPC, 0x1234).unwrap();
    let map = cpu.export_csrs();
    let mut other = Cpu::new(0, 0);
    other.import_csrs(&map);
    assert_eq!(other.read_csr(CSR_MEPC), Ok(0x1234));
    assert_eq!(other.read_csr(CSR_MHARTID), Ok(1));
}
