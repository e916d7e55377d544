//! Privilege modes and traps.

use vstd::prelude::*;

verus! {

/// Privilege mode of a hart.
#[derive(Debug, Clone, Copy, PartialEq, Eq, Structural)]
pub enum Mode {
    User,
    Supervisor,
    Machine,
}

/// Encoding of a mode in the MPP/SPP field.
pub open spec fn spec_mpp(m: Mode) -> u64 {
    match m {
        Mode::User => 0,
        Mode::Supervisor => 1,
        Mode::Machine => 3,
    }
}

/// Mode encoded by the low two bits of an MPP/SPP field (the reserved
/// encoding 2 reads as Machine).
pub open spec fn spec_from_mpp(bits: u64) -> Mode {
    if bits & 3 == 0 {
        Mode::User
    } else if bits & 3 == 1 {
        Mode::Supervisor
    } else {
        Mode::Machine
    }
}

/// Numeric privilege level of a mode.
pub open spec fn spec_privilege(m: Mode) -> u16 {
    match m {
        Mode::User => 0,
        Mode::Supervisor => 1,
        Mode::Machine => 3,
    }
}

impl Mode {
    /// Encode privilege mode into the MPP/SPP field encoding.
    pub fn to_mpp(self) -> (r: u64)
        ensures
            r == spec_mpp(self),
    {
        match self {
            Mode::User => 0b00,
            Mode::Supervisor => 0b01,
            Mode::Machine => 0b11,
        }
    }

    /// Decode MPP/SPP field into a privilege mode.
    pub fn from_mpp(bits: u64) -> (r: Mode)
        ensures
            r == spec_from_mpp(bits),
    {
        let b = bits & 0b11;
        if b == 0b00 {
            Mode::User
        } else if b == 0b01 {
            Mode::Supervisor
        } else {
            Mode::Machine
        }
    }

    /// Numeric privilege level used in CSR access bounds checks.
    pub fn privilege_level(self) -> (r: u16)
        ensures
            r == spec_privilege(self),
    {
        match self {
            Mode::User => 0,
            Mode::Supervisor => 1,
            Mode::Machine => 3,
        }
    }
}

/// Decoding an encoded mode gives the mode back.
pub proof fn lemma_mpp_roundtrip(m: Mode)
    ensures
        spec_from_mpp(spec_mpp(m)) == m,
{
    assert(0u64 & 3 == 0 && 1u64 & 3 == 1 && 3u64 & 3 == 3) by (bit_vector);
}

/// Synchronous exceptions, interrupts and host-side conditions.
#[derive(Debug, Clone, PartialEq)]
pub enum Trap {
    InstructionAddressMisaligned(u64),
    InstructionAccessFault(u64),
    IllegalInstruction(u64),
    Breakpoint,
    LoadAddressMisaligned(u64),
    LoadAccessFault(u64),
    StoreAddressMisaligned(u64),
    StoreAccessFault(u64),
    EnvironmentCallFromU,
    EnvironmentCallFromS,
    EnvironmentCallFromM,
    InstructionPageFault(u64),
    LoadPageFault(u64),
    StorePageFault(u64),

    MachineSoftwareInterrupt,
    MachineTimerInterrupt,
    MachineExternalInterrupt,
    SupervisorSoftwareInterrupt,
    SupervisorTimerInterrupt,
    SupervisorExternalInterrupt,

    /// Sleep request.
    Wfi,

    /// Requested by the host (used in testing).
    RequestedTrap(u64),
    /// Unrecoverable host-side error.
    Fatal(String),
}

} // verus!
