//! The system bus: routes each access by address range. DRAM is the only
//! device, so any access at or above DRAM_BASE goes to it and anything below
//! faults; the bus itself neither caches nor reorders.

use vstd::prelude::*;
use crate::bytes::{store_bytes, word_at};
use crate::dram::{Dram, DRAM_BASE, access_ok, bytes_of_size};

verus! {

/// The address router between the CPU and its devices.
pub struct Bus {
    pub dram: Dram,
}

impl View for Bus {
    type V = Seq<u8>;

    open spec fn view(&self) -> Seq<u8> {
        self.dram@
    }
}

impl Bus {
    pub open spec fn wf(self) -> bool {
        self.dram.wf()
    }

    /// A bus whose DRAM holds the program bytes at offset 0.
    pub fn new(code: Vec<u8>) -> (bus: Bus)
        requires
            code@.len() <= crate::dram::DRAM_SIZE,
        ensures
            bus.wf(),
            forall|i: int| 0 <= i < code@.len() ==> bus@[i] == code@[i],
            forall|i: int| code@.len() <= i < crate::dram::DRAM_SIZE ==> bus@[i] == 0u8,
    {
        Bus { dram: Dram::new(code) }
    }

    /// Route a load: to DRAM for an address at or above DRAM_BASE, a fault
    /// otherwise.
    pub fn load(&self, addr: u64, size: u64) -> (r: Result<u64, ()>)
        requires
            self.wf(),
        ensures
            access_ok(addr, size) ==> r == Ok::<u64, ()>(
                word_at(self@, addr - DRAM_BASE, bytes_of_size(size)),
            ),
            !access_ok(addr, size) ==> r is Err,
    {
        if DRAM_BASE <= addr {
            return self.dram.load(addr, size);
        }
        Err(())
    }

    /// Route a store: to DRAM for an address at or above DRAM_BASE, a fault
    /// otherwise.
    pub fn store(&mut self, addr: u64, size: u64, value: u64) -> (r: Result<(), ()>)
        requires
            old(self).wf(),
        ensures
            final(self).wf(),
            access_ok(addr, size) ==> (r == Ok::<(), ()>(()) && final(self)@ == store_bytes(
                old(self)@,
                addr - DRAM_BASE,
                bytes_of_size(size),
                value,
            )),
            !access_ok(addr, size) ==> (r is Err && final(self)@ == old(self)@),
    {
        if DRAM_BASE <= addr {
            return self.dram.store(addr, size, value);
        }
        Err(())
    }
}

} // verus!
