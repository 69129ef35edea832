//! The file of control and status registers: 4096 slots of raw storage, and
//! the supervisor view of the interrupt-enable register laid over them.

use vstd::prelude::*;

verus! {

/// Number of CSR slots: the address has 12 bits.
pub const CSR_COUNT: usize = 4096;

/// Machine interrupt pending.
pub const MIP: usize = 0x344;

/// Machine interrupt enable.
pub const MIE: usize = 0x304;

/// Supervisor interrupt pending.
pub const SIP: usize = 0x144;

/// Supervisor interrupt enable: the bits of `mie` that `mideleg` hands down.
pub const SIE: usize = 0x104;

/// Machine exception delegation.
pub const MEDELEG: usize = 0x302;

/// Machine interrupt delegation.
pub const MIDELEG: usize = 0x303;

/// Count of cycles.
pub const RDCYCLE: usize = 0xC00;

/// Seconds of wall-clock time since the machine was made.
pub const RDTIME: usize = 0xC01;

/// Count of retired instructions.
pub const INSTRET: usize = 0xC02;

/// What a read of the CSR at `addr` gives.
pub open spec fn csr_read(csrs: Seq<u64>, addr: int) -> u64 {
    if addr == SIE {
        csrs[MIE as int] & csrs[MIDELEG as int]
    } else {
        csrs[addr]
    }
}

/// The CSR file after a write of `value` to the CSR at `addr`.
pub open spec fn csr_write(csrs: Seq<u64>, addr: int, value: u64) -> Seq<u64> {
    if addr == SIE {
        csrs.update(
            MIE as int,
            (csrs[MIE as int] & !csrs[MIDELEG as int]) | (value & csrs[MIDELEG as int]),
        )
    } else {
        csrs.update(addr, value)
    }
}

} // verus!
