use vstd::prelude::*;

use crate::registers::operational::OperationalRegistersOffset;
use crate::volatile::Access;
use crate::volatile::VolatileMemory;

verus! {

/// The bit of the port status that is set while a device is attached.
pub const PORT_CONNECTED: u32 = 0x1;

/// The bit of the port status that starts a reset of the port.
pub const PORT_RESET: u32 = 0x10;

/// The bit of the port status that is set when a device was attached or
/// removed; storing a one clears it.
pub const PORT_CONNECT_CHANGE: u32 = 0x2_0000;

/// The bit of the port status that is set when a reset has ended; storing
/// a one clears it.
pub const PORT_RESET_CHANGE: u32 = 0x20_0000;

/// The bits of the port status that a store hands back as they were read:
/// the power and indicator controls and the wake enables. The bits that a
/// stored one clears or acts on are not among them.
pub const PORT_KEPT: u32 = 0x0e00_c3e0;

/// The status and control register of a root hub port.
#[derive(Debug, Clone, Copy, PartialEq, Eq, Structural)]
pub struct PortStatusControl {
    addr: usize,
}

/// The value stored to act on a port whose status was read as `raw`: the
/// bits that are kept, and the bits of `action`.
pub open spec fn port_store(raw: u32, action: u32) -> u32 {
    (raw & 0x0e00_c3e0) | action
}

impl PortStatusControl {
    pub closed spec fn spec_addr(&self) -> usize {
        self.addr
    }

    /// The register of the port `port_id`, counted from one, of the
    /// operational registers at `offset`.
    pub fn new(offset: OperationalRegistersOffset, port_id: u8) -> (port: Self)
        requires
            port_id >= 1,
        ensures
            port.addr() == offset.offset() + 0x400 + 0x10 * (port_id - 1),
    {
        Self { addr: offset.offset() + 0x400 + 0x10 * (port_id as usize - 1) }
    }

    #[verifier::when_used_as_spec(spec_addr)]
    pub fn addr(&self) -> (addr: usize)
        ensures
            addr == self.spec_addr(),
    {
        self.addr
    }

    /// Loads the status of the port.
    pub fn read<M: VolatileMemory>(&self, mem: &mut M) -> (raw: u32)
        ensures
            final(mem).history() == old(mem).history().push(
                Access { write: false, wide: false, addr: self.addr(), value: raw as u64 },
            ),
    {
        mem.read_volatile_32(self.addr)
    }

    /// Whether a device is attached to a port whose status is `raw`.
    pub fn is_connected(raw: u32) -> (connected: bool)
        ensures
            connected == (raw & 0x1 == 0x1),
    {
        raw & PORT_CONNECTED == PORT_CONNECTED
    }

    /// Whether a reset has ended on a port whose status is `raw`.
    pub fn is_reset_completed(raw: u32) -> (completed: bool)
        ensures
            completed == (raw & 0x20_0000 == 0x20_0000),
    {
        raw & PORT_RESET_CHANGE == PORT_RESET_CHANGE
    }

    /// Acts on the port: the status is loaded and stored back with the bits
    /// of `action` set and the bits that must not be handed back cleared.
    pub fn act<M: VolatileMemory>(&self, mem: &mut M, action: u32) -> (raw: u32)
        ensures
            final(mem).history() == old(mem).history().push(
                Access { write: false, wide: false, addr: self.addr(), value: raw as u64 },
            ).push(
                Access {
                    write: true,
                    wide: false,
                    addr: self.addr(),
                    value: port_store(raw, action) as u64,
                },
            ),
    {
        let raw = mem.read_volatile_32(self.addr);
        mem.write_volatile_32(self.addr, (raw & PORT_KEPT) | action);
        raw
    }
}

} // verus!
