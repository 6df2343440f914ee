use vstd::prelude::*;

use crate::error::InvalidRegisterReason;
use crate::error::PciError;
use crate::error::PciResult;
use crate::registers::capability::invalid_offset;
use crate::registers::capability::DoorbellOffset;
use crate::registers::capability::MemoryMappedAddr;
use crate::volatile::extends;
use crate::volatile::Access;
use crate::volatile::BitField;
use crate::volatile::VolatileMemory;

verus! {

/// The number of doorbell registers: one for the command ring and one for
/// each of up to 255 device slots.
pub const DOORBELLS: usize = 256;

/// The doorbell target of the default control endpoint.
pub const TARGET_CONTROL_ENDPOINT: u8 = 1;

/// The address at which the doorbell array begins: the base address plus
/// the doorbell offset.
#[derive(Debug, Clone, Copy)]
pub struct DoorbellRegistersOffset(usize);

impl DoorbellRegistersOffset {
    pub closed spec fn spec_offset(&self) -> usize {
        self.0
    }

    /// The whole array lies inside the address space.
    #[verifier::type_invariant]
    pub open spec fn in_range(&self) -> bool {
        self.spec_offset() + 0x400 <= usize::MAX
    }

    #[verifier::when_used_as_spec(spec_offset)]
    pub fn offset(&self) -> (value: usize)
        ensures
            value == self.spec_offset(),
            value + 0x400 <= usize::MAX,
    {
        proof {
            use_type_invariant(self);
        }
        self.0
    }

    /// What [`DoorbellRegistersOffset::new`] does on the accesses of `t`
    /// from index `at` on: it loads the doorbell offset, given in units of
    /// four bytes, and adds it to the base address.
    pub open spec fn new_run(t: Seq<Access>, at: int, mmio: usize, field: BitField) -> Option<
        (int, PciResult<usize>),
    > {
        if !field.loaded_at(t, at) {
            None
        } else {
            let bytes = 4 * field.value_at(t, at);
            if mmio + bytes + 0x400 <= usize::MAX {
                Some((at + 1, Ok((mmio + bytes) as usize)))
            } else {
                Some((at + 1, Err(invalid_offset(bytes as usize))))
            }
        }
    }

    /// Reads the doorbell offset and places the doorbell array that many
    /// bytes above the base address. Fails when the array would not fit
    /// into the address space.
    pub fn new<M: VolatileMemory>(mem: &mut M, mmio: MemoryMappedAddr, db_off: &DoorbellOffset) -> (r:
        PciResult<Self>)
        ensures
            extends(old(mem).history(), final(mem).history()),
            match Self::new_run(
                final(mem).history(),
                old(mem).history().len() as int,
                mmio.addr(),
                db_off.field(),
            ) {
                Some((end, Ok(offset))) => end == final(mem).history().len() && (r matches Ok(o)
                    && o.offset() == offset),
                Some((end, Err(e))) => end == final(mem).history().len() && r == Err::<Self, PciError>(
                    e,
                ),
                None => false,
            },
    {
        let bytes = db_off.read_offset(mem) as usize;
        let base = mmio.addr();
        if bytes <= usize::MAX - 0x400 && base <= usize::MAX - 0x400 - bytes {
            Ok(Self(base + bytes))
        } else {
            Err(PciError::InvalidRegister(InvalidRegisterReason::InvalidOffset { value: bytes }))
        }
    }
}

/// The value stored into a doorbell to ring it for `target`.
pub open spec fn doorbell_value(target: u8, stream_id: u16) -> u32 {
    (target + 0x1_0000 * stream_id) as u32
}

/// The store that rings the doorbell at `addr` for `target`.
pub open spec fn ring_access(addr: usize, target: u8, stream_id: u16) -> Access {
    Access { write: true, wide: false, addr, value: doorbell_value(target, stream_id) as u64 }
}

/// One doorbell register. Storing into it tells the controller that a ring
/// has new blocks: the doorbell with the number zero stands for the
/// command ring, any other for the device slot of that number.
#[derive(Debug, Clone, Copy, PartialEq, Eq, Structural)]
pub struct Doorbell {
    addr: usize,
}

impl Doorbell {
    pub closed spec fn spec_addr(&self) -> usize {
        self.addr
    }

    /// The doorbell with the number `index` of the array at `offset`.
    pub fn new(offset: DoorbellRegistersOffset, index: u8) -> (doorbell: Self)
        ensures
            doorbell.addr() == offset.offset() + 4 * index,
    {
        Self { addr: offset.offset() + 4 * index as usize }
    }

    #[verifier::when_used_as_spec(spec_addr)]
    pub fn addr(&self) -> (addr: usize)
        ensures
            addr == self.spec_addr(),
    {
        self.addr
    }

    /// Rings the doorbell for `target` with one 32-bit store; nothing is
    /// loaded.
    pub fn notify<M: VolatileMemory>(&self, mem: &mut M, target: u8, stream_id: u16)
        ensures
            final(mem).history() == old(mem).history().push(
                ring_access(self.addr(), target, stream_id),
            ),
    {
        mem.write_volatile_32(self.addr, target as u32 + 0x1_0000 * stream_id as u32);
    }
}

} // verus!
