//! The interface between the CPU and everything else.

use vstd::prelude::*;

verus! {

/// The 68000's address bus is 24 bits wide.
pub const ADDR_MASK: u32 = 0x00FF_FFFF;

/// A masked address is one the bus takes.
pub broadcast proof fn lemma_masked_address(x: u32)
    ensures
        #[trigger] (x & ADDR_MASK) <= ADDR_MASK,
{
    assert(x & 0x00FF_FFFFu32 <= 0x00FF_FFFFu32) by (bit_vector);
}

/// One access the bus has served: its address and the value it carried.
pub enum Access {
    Read8 { addr: u32, val: u8 },
    Read16 { addr: u32, val: u16 },
    Write8 { addr: u32, val: u8 },
    Write16 { addr: u32, val: u16 },
}

/// The CPU's view of the outside world.
///
/// The 68000 has a 16-bit data bus, so there is no `read32`: long accesses are
/// composed from two 16-bit accesses by the core.
///
/// Implementors own all memory, peripherals and timing. Addresses are already
/// masked to 24 bits by the core: each method's `requires` says so, and Verus
/// holds every call in the core to it. Nothing is assumed about what a read
/// returns. For proofs, a bus carries the record of the accesses it has
/// served, oldest first: each access adds itself to it, with the value it
/// read or wrote.
pub trait Bus {
    /// The accesses this bus has served, oldest first. It exists for proofs
    /// only and is erased from the compiled crate, so an implementor outside
    /// verified code need not give it; the body here only lets such an
    /// implementor compile, and the core's proofs, generic over the bus, never
    /// read it.
    closed spec fn log(&self) -> Seq<Access> {
        Seq::empty()
    }

    fn read8(&mut self, addr: u32) -> (r: u8)
        requires
            addr <= ADDR_MASK,
        ensures
            final(self).log() == old(self).log().push(Access::Read8 { addr, val: r }),
    ;

    fn read16(&mut self, addr: u32) -> (r: u16)
        requires
            addr <= ADDR_MASK,
        ensures
            final(self).log() == old(self).log().push(Access::Read16 { addr, val: r }),
    ;

    fn write8(&mut self, addr: u32, val: u8)
        requires
            addr <= ADDR_MASK,
        ensures
            final(self).log() == old(self).log().push(Access::Write8 { addr, val }),
    ;

    fn write16(&mut self, addr: u32, val: u16)
        requires
            addr <= ADDR_MASK,
        ensures
            final(self).log() == old(self).log().push(Access::Write16 { addr, val }),
    ;
}

} // verus!
