//! Decoding of the hardware cause code (exception syndrome) of a
//! synchronous exception.
//!
//! Both decoders are total: every 32-bit value maps to a defined variant,
//! with an explicit catch-all — this is diagnostic classification, never a
//! failure.

use vstd::prelude::*;

verus! {

/// A memory-fault sub-cause, classified from the low six bits of the
/// syndrome (the fault status code). Used only for reporting.
#[derive(Clone, Copy, Debug, PartialEq, Eq, Structural)]
pub enum Fault {
    AddressSize,
    Translation,
    AccessFlag,
    Permission,
    Alignment,
    TlbConflict,
    Other(u8),
}

/// What the fault decoder returns: the classification of the low six bits
/// of `val`. Total — unlisted codes map to `Other`.
pub open spec fn spec_fault_of(val: u32) -> Fault {
    let code = (val & 0b111111) as u8;
    if code <= 0b000011 {
        Fault::AddressSize
    } else if 0b000100 <= code && code <= 0b000111 {
        Fault::Translation
    } else if 0b001001 <= code && code <= 0b001010 {
        Fault::AccessFlag
    } else if 0b001101 <= code && code <= 0b001111 {
        Fault::Permission
    } else if code == 0b100001 {
        Fault::Alignment
    } else if code == 0b110000 {
        Fault::TlbConflict
    } else {
        Fault::Other(code)
    }
}

impl From<u32> for Fault {
    /// Decodes the fault status code in the low six bits of `val`.
    fn from(val: u32) -> (r: Fault) {
        let code = (val & 0b111111) as u8;
        if code <= 0b000011 {
            Fault::AddressSize
        } else if 0b000100 <= code && code <= 0b000111 {
            Fault::Translation
        } else if 0b001001 <= code && code <= 0b001010 {
            Fault::AccessFlag
        } else if 0b001101 <= code && code <= 0b001111 {
            Fault::Permission
        } else if code == 0b100001 {
            Fault::Alignment
        } else if code == 0b110000 {
            Fault::TlbConflict
        } else {
            Fault::Other(code)
        }
    }
}

impl vstd::std_specs::convert::FromSpecImpl<u32> for Fault {
    open spec fn obeys_from_spec() -> bool {
        true
    }

    open spec fn from_spec(val: u32) -> Fault {
        spec_fault_of(val)
    }
}

/// The decoded cause of a synchronous exception, from the exception
/// syndrome register. The supervisor-call, hypervisor-call, monitor-call
/// and breakpoint variants carry the 16-bit immediate of the trapping
/// instruction; the aborts carry their fault sub-cause and translation
/// level.
#[derive(Clone, Copy, Debug, PartialEq, Eq, Structural)]
pub enum Syndrome {
    Unknown,
    WfiWfe,
    McrMrc,
    McrrMrrc,
    LdcStc,
    SimdFp,
    Vmrs,
    Mrrc,
    IllegalExecutionState,
    Svc(u16),
    Hvc(u16),
    Smc(u16),
    MsrMrsSystem,
    InstructionAbort { kind: Fault, level: u8 },
    PCAlignmentFault,
    DataAbort { kind: Fault, level: u8 },
    SpAlignmentFault,
    TrappedFpu,
    SError,
    Breakpoint,
    Step,
    Watchpoint,
    Brk(u16),
    Other(u32),
}

/// What the syndrome decoder returns for a raw syndrome value `esr`: the
/// exception class sits in the top six bits; calls carry their immediate in
/// the low sixteen, aborts their translation level in the low two. Total —
/// unlisted classes map to `Other`.
pub open spec fn spec_syndrome_of(esr: u32) -> Syndrome {
    let class = esr >> 26;
    let imm = (esr & 0xFFFF) as u16;
    let level = (esr & 0b11) as u8;
    if class == 0b000000 {
        Syndrome::Unknown
    } else if class == 0b000001 {
        Syndrome::WfiWfe
    } else if class == 0b000011 || class == 0b000101 {
        Syndrome::McrMrc
    } else if class == 0b000100 {
        Syndrome::McrrMrrc
    } else if class == 0b000110 {
        Syndrome::LdcStc
    } else if class == 0b000111 {
        Syndrome::SimdFp
    } else if class == 0b001000 {
        Syndrome::Vmrs
    } else if class == 0b001100 {
        Syndrome::Mrrc
    } else if class == 0b001110 {
        Syndrome::IllegalExecutionState
    } else if class == 0b010001 || class == 0b010101 {
        Syndrome::Svc(imm)
    } else if class == 0b010010 || class == 0b010110 {
        Syndrome::Hvc(imm)
    } else if class == 0b010011 || class == 0b010111 {
        Syndrome::Smc(imm)
    } else if class == 0b011000 {
        Syndrome::MsrMrsSystem
    } else if class == 0b100000 || class == 0b100001 {
        Syndrome::InstructionAbort { kind: spec_fault_of(esr), level }
    } else if class == 0b100010 {
        Syndrome::PCAlignmentFault
    } else if class == 0b100100 || class == 0b100101 {
        Syndrome::DataAbort { kind: spec_fault_of(esr), level }
    } else if class == 0b100110 {
        Syndrome::SpAlignmentFault
    } else if class == 0b101000 || class == 0b101100 {
        Syndrome::TrappedFpu
    } else if class == 0b101111 {
        Syndrome::SError
    } else if class == 0b110000 || class == 0b110001 {
        Syndrome::Breakpoint
    } else if class == 0b110010 || class == 0b110011 {
        Syndrome::Step
    } else if class == 0b110100 || class == 0b110101 {
        Syndrome::Watchpoint
    } else if class == 0b111000 || class == 0b111100 {
        Syndrome::Brk(imm)
    } else {
        Syndrome::Other(class)
    }
}

impl From<u32> for Syndrome {
    /// Decodes a raw syndrome value. Defined for every input: each of the
    /// 64 possible exception classes in the top six bits yields a variant,
    /// unlisted ones the `Other` fallback.
    fn from(esr: u32) -> (r: Syndrome) {
        let class = esr >> 26;
        let imm = (esr & 0xFFFF) as u16;
        let level = (esr & 0b11) as u8;
        if class == 0b000000 {
            Syndrome::Unknown
        } else if class == 0b000001 {
            Syndrome::WfiWfe
        } else if class == 0b000011 || class == 0b000101 {
            Syndrome::McrMrc
        } else if class == 0b000100 {
            Syndrome::McrrMrrc
        } else if class == 0b000110 {
            Syndrome::LdcStc
        } else if class == 0b000111 {
            Syndrome::SimdFp
        } else if class == 0b001000 {
            Syndrome::Vmrs
        } else if class == 0b001100 {
            Syndrome::Mrrc
        } else if class == 0b001110 {
            Syndrome::IllegalExecutionState
        } else if class == 0b010001 || class == 0b010101 {
            Syndrome::Svc(imm)
        } else if class == 0b010010 || class == 0b010110 {
            Syndrome::Hvc(imm)
        } else if class == 0b010011 || class == 0b010111 {
            Syndrome::Smc(imm)
        } else if class == 0b011000 {
            Syndrome::MsrMrsSystem
        } else if class == 0b100000 || class == 0b100001 {
            Syndrome::InstructionAbort { kind: Fault::from(esr), level }
        } else if class == 0b100010 {
            Syndrome::PCAlignmentFault
        } else if class == 0b100100 || class == 0b100101 {
            Syndrome::DataAbort { kind: Fault::from(esr), level }
        } else if class == 0b100110 {
            Syndrome::SpAlignmentFault
        } else if class == 0b101000 || class == 0b101100 {
            Syndrome::TrappedFpu
        } else if class == 0b101111 {
            Syndrome::SError
        } else if class == 0b110000 || class == 0b110001 {
            Syndrome::Breakpoint
        } else if class == 0b110010 || class == 0b110011 {
            Syndrome::Step
        } else if class == 0b110100 || class == 0b110101 {
            Syndrome::Watchpoint
        } else if class == 0b111000 || class == 0b111100 {
            Syndrome::Brk(imm)
        } else {
            Syndrome::Other(class)
        }
    }
}

impl vstd::std_specs::convert::FromSpecImpl<u32> for Syndrome {
    open spec fn obeys_from_spec() -> bool {
        true
    }

    open spec fn from_spec(esr: u32) -> Syndrome {
        spec_syndrome_of(esr)
    }
}

} // verus!
