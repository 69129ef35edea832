//! The system bus: it decodes a physical address to the device behind it.

use vstd::prelude::*;

use crate::dram::{load_result, store_result, AccessError, Dram};

verus! {

/// The address at which DRAM starts, as on the QEMU virt machine.
pub const DRAM_BASE: u64 = 0x8000_0000;

/// What a load of `width` bits at `addr` gives on a bus whose DRAM holds `mem`.
///
/// Addresses below the base of DRAM belong to no device.
pub open spec fn bus_load_result(mem: Seq<u8>, addr: u64, width: u64) -> Result<u64, AccessError> {
    if addr < DRAM_BASE {
        Err(AccessError::OutOfRange)
    } else {
        load_result(mem, addr, width)
    }
}

/// What a store of the low `width` bits of `value` at `addr` makes of a bus
/// whose DRAM holds `mem`.
pub open spec fn bus_store_result(mem: Seq<u8>, addr: u64, width: u64, value: u64) -> Result<
    Seq<u8>,
    AccessError,
> {
    if addr < DRAM_BASE {
        Err(AccessError::OutOfRange)
    } else {
        store_result(mem, addr, width, value)
    }
}

/// The bus and the one device on it.
#[derive(Debug)]
pub struct Bus {
    pub dram: Dram,
}

impl Clone for Bus {
    fn clone(&self) -> (copy: Self)
        ensures
            copy@ == self@,
    {
        Bus { dram: self.dram.clone() }
    }
}

impl View for Bus {
    type V = Seq<u8>;

    /// The bytes of DRAM, the only device on the bus.
    open spec fn view(&self) -> Seq<u8> {
        self.dram@
    }
}

impl Bus {
    /// Reads `size` bits at `addr`, zero-extended.
    pub fn load(&self, addr: u64, size: u64) -> (r: Result<u64, AccessError>)
        ensures
            r == bus_load_result(self@, addr, size),
    {
        if DRAM_BASE <= addr {
            return self.dram.load(addr, size);
        }
        Err(AccessError::OutOfRange)
    }

    /// Writes the low `size` bits of `value` at `addr`.
    pub fn store(&mut self, addr: u64, size: u64, value: u64) -> (r: Result<(), AccessError>)
        ensures
            match bus_store_result(old(self)@, addr, size, value) {
                Ok(mem) => r is Ok && final(self)@ == mem,
                Err(e) => r == Err::<(), AccessError>(e) && final(self)@ == old(self)@,
            },
        no_unwind
    {
        if DRAM_BASE <= addr {
            return self.dram.store(addr, size, value);
        }
        Err(AccessError::OutOfRange)
    }
}

} // verus!
