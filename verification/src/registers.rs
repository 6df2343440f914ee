pub mod capability;
pub mod command_ring_control_register;
pub mod doorbell;
pub mod operational;
pub mod port;
pub mod runtime;

use vstd::prelude::*;

use crate::allocator::not_aligned_64;
use crate::allocator::one_request;
use crate::allocator::Allocation;
use crate::allocator::MemoryAllocatable;
use crate::error::AllocateReason;
use crate::error::OperationReason;
use crate::error::PciError;
use crate::error::PciResult;
use crate::event_ring::EventRing;
use crate::event_ring::EventRingModel;
use crate::event_ring::Segment;
use crate::registers::capability::CapabilityLength;
use crate::registers::capability::CapabilityRegisters;
use crate::registers::capability::EventRingSegmentTableMax;
use crate::registers::capability::MemoryMappedAddr;
use crate::registers::capability::NumberOfDeviceSlots;
use crate::registers::capability::RuntimeRegisterSpaceOffset;
use crate::registers::command_ring_control_register::allocate_command_ring_run;
use crate::registers::command_ring_control_register::obtain_command_ring;
use crate::registers::command_ring_control_register::obtain_command_ring_run;
use crate::registers::command_ring_control_register::COMMAND_RING_BYTES;
use crate::registers::operational::DeviceContextBaseAddressArrayPointer;
use crate::registers::operational::MaxDeviceSlotsEnabled;
use crate::registers::operational::OperationalRegisters;
use crate::registers::operational::OperationalRegistersOffset;
use crate::registers::operational::RunStop;
use crate::registers::runtime::InterrupterRegisterSet;
use crate::registers::runtime::RuntimeRegisters;
use crate::registers::runtime::RuntimeRegistersOffset;
use crate::ring::ring_too_small;
use crate::volatile::extends;
use crate::volatile::lemma_extends_transitive;
use crate::volatile::lemma_low_mask_values;
use crate::volatile::Access;
use crate::volatile::BitField;
use crate::volatile::VolatileMemory;

verus! {

/// The number of bytes of one device context.
pub const DEVICE_CONTEXT_SIZE: usize = 1024;

/// The number of slots of the event ring segment the driver sets up.
pub const EVENT_RING_SLOTS: u16 = 32;

/// The error for a controller that has to be halted and is running.
pub open spec fn xhc_running() -> PciError {
    PciError::FailedOperateToRegister(OperationReason::XhcRunning)
}

/// The error for a register that was read back with another value than
/// the one stored.
pub open spec fn not_reflected(expect: usize, value: usize) -> PciError {
    PciError::FailedOperateToRegister(OperationReason::NotReflectedValue { expect, value })
}

/// The error for an allocator that is out of memory.
pub open spec fn not_enough_memory() -> PciError {
    PciError::FailedAllocate(AllocateReason::NotEnoughMemory)
}

/// What [`setup_device_context_max_slots`] does on the accesses of `t` from
/// index `at` on.
pub open spec fn setup_device_context_max_slots_run(
    t: Seq<Access>,
    at: int,
    run_stop: BitField,
    max_slots: BitField,
    max_slots_en: BitField,
) -> Option<(int, PciResult)> {
    if !run_stop.loaded_at(t, at) {
        None
    } else if run_stop.value_at(t, at) != 0 {
        Some((at + 1, Err(xhc_running())))
    } else if !(max_slots.loaded_at(t, at + 1) && max_slots_en.stored_at(
        t,
        at + 2,
        max_slots.value_at(t, at + 1),
    ) && max_slots_en.loaded_at(t, at + 4)) {
        None
    } else if max_slots_en.value_at(t, at + 4) == max_slots.value_at(t, at + 1) {
        Some((at + 5, Ok(())))
    } else {
        Some(
            (
                at + 5,
                Err(
                    not_reflected(
                        max_slots.value_at(t, at + 1) as usize,
                        max_slots_en.value_at(t, at + 4) as usize,
                    ),
                ),
            ),
        )
    }
}

/// Enables as many device slots as the controller supports.
///
/// A running controller is refused with `XhcRunning` and nothing is
/// stored. Otherwise the number of slots is read from the capability
/// registers, stored into the configuration register and read back from
/// there; a number read back that differs is reported as
/// `NotReflectedValue`.
pub fn setup_device_context_max_slots<M: VolatileMemory>(
    mem: &mut M,
    run_stop: &RunStop,
    max_slots: &NumberOfDeviceSlots,
    max_slots_en: &MaxDeviceSlotsEnabled,
) -> (r: PciResult)
    ensures
        extends(old(mem).history(), final(mem).history()),
        setup_device_context_max_slots_run(
            final(mem).history(),
            old(mem).history().len() as int,
            run_stop.field(),
            max_slots.field(),
            max_slots_en.field(),
        ) == Some((final(mem).history().len() as int, r)),
{
    let ghost t0 = mem.history();
    if run_stop.read_flag_volatile(mem) {
        return Err(PciError::FailedOperateToRegister(OperationReason::XhcRunning));
    }
    let ghost t1 = mem.history();
    let enable_slots = max_slots.read_volatile(mem);
    let ghost t2 = mem.history();
    max_slots_en.write_volatile(mem, enable_slots);
    let ghost t3 = mem.history();
    let enabled = max_slots_en.read_volatile(mem);
    proof {
        lemma_extends_transitive(t0, t1, t2);
        lemma_extends_transitive(t0, t2, t3);
        lemma_extends_transitive(t0, t3, mem.history());
    }
    if enabled == enable_slots {
        Ok(())
    } else {
        Err(
            PciError::FailedOperateToRegister(
                OperationReason::NotReflectedValue {
                    expect: enable_slots as usize,
                    value: enabled as usize,
                },
            ),
        )
    }
}

/// The number of bytes of the device context array for `slots` enabled
/// slots: one context for each slot and one for the scratchpad entry.
pub open spec fn device_context_array_bytes(slots: u64) -> usize {
    (1024 * (slots + 1)) as usize
}

/// What [`allocate_device_context_array`] does on the accesses of `t` from
/// index `at` on, given the allocator's answer.
pub open spec fn allocate_device_context_array_run(
    t: Seq<Access>,
    at: int,
    dcbaap: BitField,
    max_slots_en: BitField,
    granted: Option<u64>,
) -> Option<(int, PciResult<u64>)> {
    if !max_slots_en.loaded_at(t, at) {
        None
    } else {
        match granted {
            None => Some((at + 1, Err(not_enough_memory()))),
            Some(addr) => if addr % 64 != 0 {
                Some((at + 1, Err(not_aligned_64())))
            } else if !(dcbaap.stored_at(t, at + 1, addr) && dcbaap.loaded_at(t, at + 3)) {
                None
            } else if dcbaap.value_at(t, at + 3) == addr {
                Some((at + 4, Ok(addr)))
            } else {
                Some(
                    (at + 4, Err(not_reflected(addr as usize, dcbaap.value_at(t, at + 3) as usize))),
                )
            },
        }
    }
}

/// Obtains the device context array and tells the controller where it is.
///
/// The array has [`DEVICE_CONTEXT_SIZE`] bytes for each enabled slot and
/// for the entry before them; it is asked for on a 64-byte boundary and
/// inside one 4096-byte page. Fails with `NotEnoughMemory` when the
/// allocator has none, with `NotAlignedAddress` when what it gave is not
/// on a 64-byte boundary, and with `NotReflectedValue` when the pointer
/// register does not read back as stored.
pub fn allocate_device_context_array<M: VolatileMemory, A: MemoryAllocatable>(
    mem: &mut M,
    dcbaap: &DeviceContextBaseAddressArrayPointer,
    max_slots_en: &MaxDeviceSlotsEnabled,
    allocator: &mut A,
) -> (r: PciResult<u64>)
    ensures
        extends(old(mem).history(), final(mem).history()),
        max_slots_en.field().loaded_at(final(mem).history(), old(mem).history().len() as int),
        one_request(
            old(allocator).granted(),
            final(allocator).granted(),
            device_context_array_bytes(
                max_slots_en.field().value_at(final(mem).history(), old(mem).history().len() as int),
            ),
            64,
            4096,
        ),
        allocate_device_context_array_run(
            final(mem).history(),
            old(mem).history().len() as int,
            dcbaap.field(),
            max_slots_en.field(),
            final(allocator).granted().last().address,
        ) == Some((final(mem).history().len() as int, r)),
{
    let ghost t0 = mem.history();
    let slots = max_slots_en.read_volatile(mem);
    proof {
        lemma_low_mask_values();
    }
    let alloc_size: usize = DEVICE_CONTEXT_SIZE * (slots as usize + 1);
    let ghost t1 = mem.history();
    let granted = allocator.allocate_with_align(alloc_size, 64, 4096);
    let device_context_array_addr = match granted {
        None => {
            return Err(PciError::FailedAllocate(AllocateReason::NotEnoughMemory));
        },
        Some(aligned) => match aligned.address() {
            Ok(addr) => addr,
            Err(e) => {
                return Err(e);
            },
        },
    };
    dcbaap.write_volatile(mem, device_context_array_addr);
    let ghost t2 = mem.history();
    let addr = dcbaap.read_volatile(mem);
    proof {
        lemma_extends_transitive(t0, t1, t2);
        lemma_extends_transitive(t0, t2, mem.history());
    }
    if addr == device_context_array_addr {
        Ok(device_context_array_addr)
    } else {
        Err(
            PciError::FailedOperateToRegister(
                OperationReason::NotReflectedValue {
                    expect: #[verifier::truncate]
                    (device_context_array_addr as usize),
                    value: #[verifier::truncate]
                    (addr as usize),
                },
            ),
        )
    }
}

/// The stores that put the entry for `segment` into the segment table at
/// `table_addr`: the address of the segment, its number of slots, and a
/// zero.
pub open spec fn table_stores(table_addr: u64, segment: Segment) -> Seq<Access> {
    seq![
        Access { write: true, wide: true, addr: table_addr as usize, value: segment.base },
        Access {
            write: true,
            wide: false,
            addr: (table_addr + 8) as usize,
            value: segment.size as u64,
        },
        Access { write: true, wide: false, addr: (table_addr + 12) as usize, value: 0 },
    ]
}

/// `t[at]` to `t[at + 2]` are the stores of [`table_stores`].
pub open spec fn table_stored_at(t: Seq<Access>, at: int, table_addr: u64, segment: Segment)
    -> bool {
    &&& 0 <= at
    &&& at + 3 <= t.len()
    &&& t.subrange(at, at + 3) == table_stores(table_addr, segment)
}

/// What [`setup_event_ring`] does on the accesses of `t` from index `at`
/// on, given the allocator's answers to the request for the segment table
/// and to the request for the segment. A request that is not made counts
/// as `None`.
pub open spec fn setup_event_ring_run(
    t: Seq<Access>,
    at: int,
    set: InterrupterRegisterSet,
    erst_max: BitField,
    slots: u16,
    table: Option<u64>,
    segment: Option<u64>,
) -> Option<(int, PciResult<Segment>)> {
    match (table, segment) {
        (Some(table_addr), Some(base)) => {
            let made = Segment { base, size: slots };
            if slots < 1 || base + 16 * slots > u64::MAX {
                Some((at, Err(ring_too_small(slots as usize))))
            } else if base % 64 != 0 {
                Some((at, Err(not_aligned_64())))
            } else if table_addr + 16 > usize::MAX {
                Some((at, Err(not_enough_memory())))
            } else if !table_stored_at(t, at, table_addr, made) {
                None
            } else {
                match set.register_event_ring_run(t, at + 3, erst_max, table_addr, 1, base) {
                    None => None,
                    Some((end, Ok(_))) => Some((end, Ok(made))),
                    Some((end, Err(e))) => Some((end, Err(e))),
                }
            }
        },
        _ => Some((at, Err(not_enough_memory()))),
    }
}

/// What setting up an event ring did stays what it did when more accesses
/// follow.
pub proof fn lemma_setup_event_ring_stable(
    t: Seq<Access>,
    later: Seq<Access>,
    at: int,
    set: InterrupterRegisterSet,
    erst_max: BitField,
    slots: u16,
    table: Option<u64>,
    segment: Option<u64>,
)
    requires
        extends(t, later),
        0 <= at,
        setup_event_ring_run(t, at, set, erst_max, slots, table, segment) matches Some((end, _))
            && end <= t.len(),
    ensures
        setup_event_ring_run(later, at, set, erst_max, slots, table, segment)
            == setup_event_ring_run(t, at, set, erst_max, slots, table, segment),
{
    if table is Some && segment is Some {
        let table_addr = table->Some_0;
        let base = segment->Some_0;
        let made = Segment { base, size: slots };
        if !(slots < 1 || base + 16 * slots > u64::MAX) && base % 64 == 0 && table_addr + 16
            <= usize::MAX {
            assert(table_stored_at(t, at, table_addr, made));
            assert(later.subrange(at, at + 3) =~= t.subrange(at, at + 3));
            set.lemma_register_event_ring_stable(t, later, at + 3, erst_max, table_addr, 1, base);
        }
    }
}

/// The answer to the `index`-th request of `granted`; `None` where fewer
/// requests were made.
pub open spec fn answer(granted: Seq<Allocation>, index: int) -> Option<u64> {
    if 0 <= index < granted.len() {
        granted[index].address
    } else {
        None
    }
}

/// Makes an event ring of one segment with `slots` slots and hands it to
/// the interrupter `set`.
///
/// Memory is asked for twice: 16 bytes for the segment table, then 16
/// bytes for each slot, both on a 64-byte boundary; the second request is
/// not made when the first was turned down. Either request turned down
/// fails with `NotEnoughMemory`, and a segment the ring cannot use with the
/// error of [`EventRing::new`]; nothing is stored in these cases. Otherwise
/// the entry of the segment is stored into the table before the ring is
/// handed over.
pub fn setup_event_ring<M: VolatileMemory, A: MemoryAllocatable>(
    mem: &mut M,
    set: &InterrupterRegisterSet,
    erst_max: &EventRingSegmentTableMax,
    slots: u16,
    allocator: &mut A,
) -> (r: PciResult<EventRing>)
    ensures
        extends(old(mem).history(), final(mem).history()),
        extends_requests(old(allocator).granted(), final(allocator).granted(), 2),
        final(allocator).granted().len() >= old(allocator).granted().len() + 1,
        asked(final(allocator).granted(), old(allocator).granted().len() as int, 16, 64, 4096),
        asked(
            final(allocator).granted(),
            old(allocator).granted().len() as int + 1,
            (16 * slots) as usize,
            64,
            0x1_0000,
        ),
        final(allocator).granted().len() == old(allocator).granted().len() + 2 <==> answer(
            final(allocator).granted(),
            old(allocator).granted().len() as int,
        ) is Some,
        match setup_event_ring_run(
            final(mem).history(),
            old(mem).history().len() as int,
            *set,
            erst_max.field(),
            slots,
            answer(final(allocator).granted(), old(allocator).granted().len() as int),
            answer(final(allocator).granted(), old(allocator).granted().len() as int + 1),
        ) {
            Some((end, Ok(segment))) => end == final(mem).history().len() && (r matches Ok(ring)
                && ring.wf() && ring@ == (EventRingModel {
                segments: seq![segment],
                segment: 0,
                index: 0,
                cycle: true,
            })),
            Some((end, Err(e))) => end == final(mem).history().len() && r == Err::<
                EventRing,
                PciError,
            >(e),
            None => false,
        },
{
    let ghost g0 = allocator.granted();
    let table = match allocator.allocate_with_align(16, 64, 4096) {
        Some(table) => table.raw_address(),
        None => {
            return Err(PciError::FailedAllocate(AllocateReason::NotEnoughMemory));
        },
    };
    let base = match allocator.allocate_with_align(16 * slots as usize, 64, 0x1_0000) {
        Some(base) => base.raw_address(),
        None => {
            return Err(PciError::FailedAllocate(AllocateReason::NotEnoughMemory));
        },
    };
    let mut segments: Vec<Segment> = Vec::new();
    segments.push(Segment { base, size: slots });
    proof {
        assert(segments@ =~= seq![Segment { base, size: slots }]);
    }
    let ring = match EventRing::new(segments) {
        Ok(ring) => ring,
        Err(e) => {
            proof {
                assert(!segments@[0].wf());
            }
            return Err(e);
        },
    };
    proof {
        assert(segments@[0].wf());
    }
    if table > (usize::MAX - 16) as u64 {
        return Err(PciError::FailedAllocate(AllocateReason::NotEnoughMemory));
    }
    let ghost t0 = mem.history();
    mem.write_volatile_64(table as usize, base);
    mem.write_volatile_32(table as usize + 8, slots as u32);
    mem.write_volatile_32(table as usize + 12, 0);
    let ghost t1 = mem.history();
    proof {
        assert(t1.subrange(t0.len() as int, t0.len() as int + 3) =~= table_stores(
            table,
            Segment { base, size: slots },
        ));
    }
    let r = set.register_event_ring(mem, erst_max, table, 1, ring.dequeue_pointer());
    proof {
        let t2 = mem.history();
        assert(t2.subrange(t0.len() as int, t0.len() as int + 3) =~= t1.subrange(
            t0.len() as int,
            t0.len() as int + 3,
        ));
    }
    match r {
        Ok(_) => Ok(ring),
        Err(e) => Err(e),
    }
}

/// The `index`-th request of `granted`, if it was made, was for `bytes`
/// bytes with the given alignment and boundary.
pub open spec fn asked(
    granted: Seq<Allocation>,
    index: int,
    bytes: usize,
    align: usize,
    boundary: usize,
) -> bool {
    0 <= index < granted.len() ==> granted[index].bytes == bytes && granted[index].align == align
        && granted[index].boundary == boundary
}

/// The `index`-th request of `granted`, if it was made, was for memory with
/// the given alignment and boundary.
pub open spec fn asked_within(granted: Seq<Allocation>, index: int, align: usize, boundary: usize)
    -> bool {
    0 <= index < granted.len() ==> granted[index].align == align && granted[index].boundary
        == boundary
}

/// `post` continues `pre` by at most `limit` requests.
pub open spec fn extends_requests(pre: Seq<Allocation>, post: Seq<Allocation>, limit: int) -> bool {
    &&& pre.len() <= post.len() <= pre.len() + limit
    &&& forall|i: int| 0 <= i < pre.len() ==> #[trigger] post[i] == pre[i]
}


/// The requests of `granted` from index `first` on, as far as they were
/// made, are those of a bring-up: for the device context array, on a
/// 64-byte boundary and inside one page; for the command ring, on a 64-byte
/// boundary and inside one stretch of 64 KiB; for the segment table of the
/// event ring, on a 64-byte boundary and inside one page; and for its
/// segment, on a 64-byte boundary and inside one stretch of 64 KiB.
pub open spec fn bring_up_requests(granted: Seq<Allocation>, first: int) -> bool {
    &&& asked_within(granted, first, 64, 4096)
    &&& asked(granted, first + 1, COMMAND_RING_BYTES, 64, 0x1_0000)
    &&& asked(granted, first + 2, 16, 64, 4096)
    &&& asked(granted, first + 3, (16 * EVENT_RING_SLOTS) as usize, 64, 0x1_0000)
}

/// The registers of a controller.
#[derive(Debug, Clone, Copy)]
pub struct Registers {
    /// At the base address.
    capability_registers: CapabilityRegisters,
    /// The capability length above the base address.
    operational_registers: OperationalRegisters,
    /// The runtime register space offset above the base address.
    runtime_registers: RuntimeRegisters,
    operational_offset: OperationalRegistersOffset,
    mmio_addr: MemoryMappedAddr,
}

impl Registers {
    pub closed spec fn capability(&self) -> CapabilityRegisters {
        self.capability_registers
    }

    pub closed spec fn operational(&self) -> OperationalRegisters {
        self.operational_registers
    }

    pub closed spec fn runtime(&self) -> RuntimeRegisters {
        self.runtime_registers
    }

    /// The address at which the operational registers begin.
    pub closed spec fn spec_operational_offset(&self) -> OperationalRegistersOffset {
        self.operational_offset
    }

    /// The address at which the registers begin.
    pub closed spec fn spec_mmio_addr(&self) -> MemoryMappedAddr {
        self.mmio_addr
    }

    /// The three blocks lie at the addresses given.
    pub open spec fn lies_at(&self, mmio: usize, operational: usize, runtime: usize) -> bool {
        &&& self.capability().lies_at(mmio)
        &&& self.operational().lies_at(operational)
        &&& self.spec_operational_offset().offset() == operational
        &&& self.spec_mmio_addr().addr() == mmio
        &&& self.runtime().interrupter.lies_at((runtime + 0x20) as usize)
    }

    /// What [`Registers::new`] does on the accesses of `t` from index `at`
    /// on, and where it finds the operational and the runtime registers.
    pub open spec fn new_run(t: Seq<Access>, at: int, mmio: usize) -> Option<
        (int, PciResult<(usize, usize)>),
    > {
        match CapabilityRegisters::new_run(t, at, mmio) {
            None => None,
            Some((a1, Err(e))) => Some((a1, Err(e))),
            Some((a1, Ok(_))) => match OperationalRegistersOffset::new_run(
                t,
                a1,
                mmio,
                CapabilityLength::field_at(mmio),
            ) {
                None => None,
                Some((a2, Err(e))) => Some((a2, Err(e))),
                Some((a2, Ok(operational))) => match OperationalRegisters::new_run(
                    t,
                    a2,
                    operational,
                ) {
                    None => None,
                    Some((a3, Err(e))) => Some((a3, Err(e))),
                    Some((a3, Ok(_))) => match RuntimeRegistersOffset::new_run(
                        t,
                        a3,
                        mmio,
                        RuntimeRegisterSpaceOffset::field_at(mmio),
                    ) {
                        None => None,
                        Some((a4, Err(e))) => Some((a4, Err(e))),
                        Some((a4, Ok(runtime))) => Some((a4, Ok((operational, runtime)))),
                    },
                },
            }
        }
    }

    /// Finds the register blocks of the controller at `mmio_addr`.
    ///
    /// The capability registers say where the other blocks lie; the first
    /// check that fails, of a length, an offset or a flag of the command
    /// ring control register, ends the search with its error.
    pub fn new<M: VolatileMemory>(mem: &mut M, mmio_addr: MemoryMappedAddr) -> (r: PciResult<Self>)
        ensures
            extends(old(mem).history(), final(mem).history()),
            match Self::new_run(
                final(mem).history(),
                old(mem).history().len() as int,
                mmio_addr.addr(),
            ) {
                Some((end, Ok((operational, runtime)))) => end == final(mem).history().len() && (
                r matches Ok(registers) && registers.lies_at(
                    mmio_addr.addr(),
                    operational,
                    runtime,
                )),
                Some((end, Err(e))) => end == final(mem).history().len() && r == Err::<Self, PciError>(
                    e,
                ),
                None => false,
            },
    {
        let ghost t0 = mem.history();
        let capability_registers = match CapabilityRegisters::new(mem, mmio_addr) {
            Ok(registers) => registers,
            Err(e) => {
                return Err(e);
            },
        };
        let ghost t1 = mem.history();
        let operational_offset = match OperationalRegistersOffset::new(
            mem,
            mmio_addr,
            &capability_registers.cap_length(),
        ) {
            Ok(offset) => offset,
            Err(e) => {
                proof {
                    lemma_extends_transitive(t0, t1, mem.history());
                }
                return Err(e);
            },
        };
        let ghost t2 = mem.history();
        proof {
            lemma_extends_transitive(t0, t1, t2);
        }
        let operational_registers = match OperationalRegisters::new(mem, operational_offset) {
            Ok(registers) => registers,
            Err(e) => {
                proof {
                    lemma_extends_transitive(t0, t2, mem.history());
                }
                return Err(e);
            },
        };
        let ghost t3 = mem.history();
        proof {
            lemma_extends_transitive(t0, t2, t3);
        }
        let runtime_offset = match RuntimeRegistersOffset::new(
            mem,
            mmio_addr,
            &capability_registers.rts_off(),
        ) {
            Ok(offset) => offset,
            Err(e) => {
                proof {
                    lemma_extends_transitive(t0, t3, mem.history());
                }
                return Err(e);
            },
        };
        proof {
            lemma_extends_transitive(t0, t3, mem.history());
        }
        Ok(
            Self {
                capability_registers,
                operational_registers,
                runtime_registers: RuntimeRegisters::new(runtime_offset),
                operational_offset,
                mmio_addr,
            },
        )
    }

    /// What [`Registers::bring_up`] does on the accesses of `t` from index `at`
    /// on, given the allocator's record `granted`, of which the requests
    /// from index `first` on are those of this call, the address of the
    /// command ring and the segment of the event ring it makes.
    pub open spec fn bring_up_run(
        &self,
        t: Seq<Access>,
        at: int,
        granted: Seq<Allocation>,
        first: int,
    ) -> Option<(int, PciResult<(u64, Segment)>)> {
        let operational = self.operational();
        match operational.reset_host_controller_run(t, at) {
            None => None,
            Some((a1, Err(e))) => Some((a1, Err(e))),
            Some((a1, Ok(_))) => match setup_device_context_max_slots_run(
                t,
                a1,
                operational.run_stop.field(),
                self.capability().hcs_params1().max_slots().field(),
                operational.max_slots_en.field(),
            ) {
                None => None,
                Some((a2, Err(e))) => Some((a2, Err(e))),
                Some((a2, Ok(_))) => match allocate_device_context_array_run(
                    t,
                    a2,
                    operational.dcbaap.field(),
                    operational.max_slots_en.field(),
                    answer(granted, first),
                ) {
                    None => None,
                    Some((a3, Err(e))) => Some((a3, Err(e))),
                    Some((a3, Ok(_))) => match obtain_command_ring_run(
                        t,
                        a3,
                        operational.crcr,
                        answer(granted, first + 1),
                    ) {
                        None => None,
                        Some((a4, Err(e))) => Some((a4, Err(e))),
                        Some((a4, Ok(command_ring))) => match setup_event_ring_run(
                            t,
                            a4,
                            self.runtime().interrupter,
                            self.capability().hcs_params2().erst_max().field(),
                            EVENT_RING_SLOTS,
                            answer(granted, first + 2),
                            answer(granted, first + 3),
                        ) {
                            None => None,
                            Some((a5, Err(e))) => Some((a5, Err(e))),
                            Some((a5, Ok(segment))) => if operational.inte.field().stored_at(
                                t,
                                a5,
                                1,
                            ) {
                                Some((a5 + 2, Ok((command_ring, segment))))
                            } else {
                                None
                            },
                        },
                    },
                },
            },
        }
    }

    /// What [`Registers::init`] does on the accesses of `t` from index `at`
    /// on: what [`Registers::bring_up`] does, without the address of the
    /// command ring.
    pub open spec fn init_run(
        &self,
        t: Seq<Access>,
        at: int,
        granted: Seq<Allocation>,
        first: int,
    ) -> Option<(int, PciResult<Segment>)> {
        match self.bring_up_run(t, at, granted, first) {
            None => None,
            Some((end, Ok((_, segment)))) => Some((end, Ok(segment))),
            Some((end, Err(e))) => Some((end, Err(e))),
        }
    }

    /// What [`Registers::bring_up`] asks of the allocator, where `t`, `at`,
    /// `granted` and `first` are as in [`Registers::bring_up_run`].
    ///
    /// No memory is asked for before the device slots are enabled. Then the
    /// device context array is asked for, with room for as many slots as
    /// were found enabled; if it is had and registered, the command ring;
    /// if that is had and registered, the segment table of the event ring;
    /// and if that is had, the segment.
    pub open spec fn bring_up_asks(
        &self,
        t: Seq<Access>,
        at: int,
        granted: Seq<Allocation>,
        first: int,
    ) -> bool {
        let operational = self.operational();
        match operational.reset_host_controller_run(t, at) {
            Some((a1, Ok(_))) => match setup_device_context_max_slots_run(
                t,
                a1,
                operational.run_stop.field(),
                self.capability().hcs_params1().max_slots().field(),
                operational.max_slots_en.field(),
            ) {
                Some((a2, Ok(_))) => {
                    &&& granted.len() >= first + 1
                    &&& granted[first].bytes == device_context_array_bytes(
                        operational.max_slots_en.field().value_at(t, a2),
                    )
                    &&& match allocate_device_context_array_run(
                        t,
                        a2,
                        operational.dcbaap.field(),
                        operational.max_slots_en.field(),
                        answer(granted, first),
                    ) {
                        Some((a3, Ok(_))) => {
                            &&& granted.len() >= first + 2
                            &&& match allocate_command_ring_run(
                                t,
                                a3,
                                operational.crcr,
                                answer(granted, first + 1),
                            ) {
                                Some((a4, Ok(_))) => if answer(granted, first + 2) is Some {
                                    granted.len() == first + 4
                                } else {
                                    granted.len() == first + 3
                                },
                                _ => granted.len() == first + 2,
                            }
                        },
                        _ => granted.len() == first + 1,
                    }
                },
                _ => granted.len() == first,
            },
            _ => granted.len() == first,
        }
    }

    /// What a bring-up did and asked for stays what it did and asked for
    /// when more accesses follow.
    pub proof fn lemma_bring_up_stable(
        &self,
        t: Seq<Access>,
        later: Seq<Access>,
        at: int,
        granted: Seq<Allocation>,
        first: int,
    )
        requires
            extends(t, later),
            0 <= at,
            self.bring_up_run(t, at, granted, first) matches Some((end, _)) && end <= t.len(),
        ensures
            self.bring_up_run(later, at, granted, first) == self.bring_up_run(t, at, granted, first),
            self.bring_up_asks(later, at, granted, first) == self.bring_up_asks(
                t,
                at,
                granted,
                first,
            ),
    {
        let operational = self.operational();
        let reset = operational.reset_host_controller_run(t, at);
        let a1 = reset->Some_0.0;
        operational.lemma_reset_host_controller_stable(t, later, at);
        if reset->Some_0.1 is Ok {
            let enabled = setup_device_context_max_slots_run(
                t,
                a1,
                operational.run_stop.field(),
                self.capability().hcs_params1().max_slots().field(),
                operational.max_slots_en.field(),
            );
            let a2 = enabled->Some_0.0;
            if enabled->Some_0.1 is Ok {
                let array = allocate_device_context_array_run(
                    t,
                    a2,
                    operational.dcbaap.field(),
                    operational.max_slots_en.field(),
                    answer(granted, first),
                );
                let a3 = array->Some_0.0;
                if array->Some_0.1 is Ok {
                    let ring = obtain_command_ring_run(
                        t,
                        a3,
                        operational.crcr,
                        answer(granted, first + 1),
                    );
                    let a4 = ring->Some_0.0;
                    if ring->Some_0.1 is Ok {
                        lemma_setup_event_ring_stable(
                            t,
                            later,
                            a4,
                            self.runtime().interrupter,
                            self.capability().hcs_params2().erst_max().field(),
                            EVENT_RING_SLOTS,
                            answer(granted, first + 2),
                            answer(granted, first + 3),
                        );
                    }
                }
            }
        }
    }

    /// Brings the controller up to the point where it can be run.
    ///
    /// In this order: the controller is halted and reset; the device slots
    /// are enabled; the device context array is obtained and registered;
    /// the command ring is obtained and registered; an event ring of one
    /// segment with [`EVENT_RING_SLOTS`] slots is obtained and handed to the
    /// first interrupter; interrupts are switched on. The first step that
    /// fails ends the call with its error, and no later step is begun.
    /// Returns the address of the command ring and the event ring.
    pub fn bring_up<M: VolatileMemory, A: MemoryAllocatable>(&self, mem: &mut M, allocator: &mut A)
        -> (r: PciResult<(u64, EventRing)>)
        ensures
            extends(old(mem).history(), final(mem).history()),
            extends_requests(old(allocator).granted(), final(allocator).granted(), 4),
            self.bring_up_asks(
                final(mem).history(),
                old(mem).history().len() as int,
                final(allocator).granted(),
                old(allocator).granted().len() as int,
            ),
            bring_up_requests(final(allocator).granted(), old(allocator).granted().len() as int),
            match self.bring_up_run(
                final(mem).history(),
                old(mem).history().len() as int,
                final(allocator).granted(),
                old(allocator).granted().len() as int,
            ) {
                Some((end, Ok((command_ring, segment)))) => end == final(mem).history().len() && (
                r matches Ok(made) && made.0 == command_ring && made.1.wf() && made.1@
                    == (EventRingModel {
                    segments: seq![segment],
                    segment: 0,
                    index: 0,
                    cycle: true,
                })),
                Some((end, Err(e))) => end == final(mem).history().len() && r == Err::<
                    (u64, EventRing),
                    PciError,
                >(e),
                None => false,
            },
    {
        let ghost t0 = mem.history();
        let ghost at = t0.len() as int;
        let ghost g0 = allocator.granted();
        let ghost first = g0.len() as int;
        let operational = self.operational_registers;
        match operational.reset_host_controller(mem) {
            Ok(_) => {},
            Err(e) => {
                return Err(e);
            },
        }
        let ghost t1 = mem.history();
        match self.setup_device_context_max_slots(mem) {
            Ok(_) => {},
            Err(e) => {
                proof {
                    lemma_extends_transitive(t0, t1, mem.history());
                    operational.lemma_reset_host_controller_stable(t1, mem.history(), at);
                }
                return Err(e);
            },
        }
        let ghost t2 = mem.history();
        proof {
            lemma_extends_transitive(t0, t1, t2);
        }
        match self.allocate_device_context_array(mem, allocator) {
            Ok(_) => {},
            Err(e) => {
                proof {
                    lemma_extends_transitive(t0, t2, mem.history());
                    lemma_extends_transitive(t1, t2, mem.history());
                    operational.lemma_reset_host_controller_stable(t1, mem.history(), at);
                }
                return Err(e);
            },
        }
        let ghost t3 = mem.history();
        let ghost g1 = allocator.granted();
        proof {
            lemma_extends_transitive(t0, t2, t3);
            lemma_extends_transitive(t1, t2, t3);
        }
        let command_ring = match obtain_command_ring(mem, &operational.crcr, allocator) {
            Ok(addr) => addr,
            Err(e) => {
                proof {
                    lemma_extends_transitive(t0, t3, mem.history());
                    lemma_extends_transitive(t1, t3, mem.history());
                    operational.lemma_reset_host_controller_stable(t1, mem.history(), at);
                }
                return Err(e);
            },
        };
        let ghost t4 = mem.history();
        let ghost g2 = allocator.granted();
        proof {
            lemma_extends_transitive(t0, t3, t4);
            lemma_extends_transitive(t1, t3, t4);
        }
        let set = self.runtime_registers.interrupter;
        let erst_max = self.capability_registers.hcs_params2().erst_max();
        let made = setup_event_ring(mem, &set, &erst_max, EVENT_RING_SLOTS, allocator);
        let ghost t5 = mem.history();
        let ghost g3 = allocator.granted();
        proof {
            lemma_extends_transitive(t0, t4, t5);
            lemma_extends_transitive(t1, t4, t5);
            operational.lemma_reset_host_controller_stable(t1, t5, at);
            assert(answer(g3, first) == answer(g1, first));
            assert(answer(g3, first + 1) == answer(g2, first + 1));
        }
        let event_ring = match made {
            Ok(ring) => ring,
            Err(e) => {
                return Err(e);
            },
        };
        operational.inte.write_flag_volatile(mem, true);
        proof {
            let t6 = mem.history();
            lemma_extends_transitive(t0, t5, t6);
            lemma_extends_transitive(t1, t5, t6);
            lemma_extends_transitive(t4, t5, t6);
            operational.lemma_reset_host_controller_stable(t1, t6, at);
            let table = answer(g3, first + 2);
            let base = answer(g3, first + 3);
            assert(table is Some && base is Some);
            set.lemma_register_event_ring_stable(
                t5,
                t6,
                t4.len() as int + 3,
                erst_max.field(),
                table->Some_0,
                1,
                base->Some_0,
            );
            assert(t6.subrange(t4.len() as int, t4.len() as int + 3) =~= t5.subrange(
                t4.len() as int,
                t4.len() as int + 3,
            ));
        }
        Ok((command_ring, event_ring))
    }

    /// Brings the controller up as [`Registers::bring_up`] does and returns
    /// the event ring.
    pub fn init<M: VolatileMemory, A: MemoryAllocatable>(&self, mem: &mut M, allocator: &mut A)
        -> (r: PciResult<EventRing>)
        ensures
            extends(old(mem).history(), final(mem).history()),
            extends_requests(old(allocator).granted(), final(allocator).granted(), 4),
            self.bring_up_asks(
                final(mem).history(),
                old(mem).history().len() as int,
                final(allocator).granted(),
                old(allocator).granted().len() as int,
            ),
            bring_up_requests(final(allocator).granted(), old(allocator).granted().len() as int),
            match self.init_run(
                final(mem).history(),
                old(mem).history().len() as int,
                final(allocator).granted(),
                old(allocator).granted().len() as int,
            ) {
                Some((end, Ok(segment))) => end == final(mem).history().len() && (r matches Ok(
                    ring,
                ) && ring.wf() && ring@ == (EventRingModel {
                    segments: seq![segment],
                    segment: 0,
                    index: 0,
                    cycle: true,
                })),
                Some((end, Err(e))) => end == final(mem).history().len() && r == Err::<
                    EventRing,
                    PciError,
                >(e),
                None => false,
            },
    {
        match self.bring_up(mem, allocator) {
            Ok(made) => Ok(made.1),
            Err(e) => Err(e),
        }
    }

    /// Lets the controller run.
    pub fn run<M: VolatileMemory>(&self, mem: &mut M)
        ensures
            crate::volatile::write_step(
                old(mem).history(),
                final(mem).history(),
                self.operational().run_stop.field(),
                1,
            ),
    {
        self.operational_registers.run_host_controller(mem);
    }

    /// Enables as many device slots as the controller supports; see
    /// [`setup_device_context_max_slots`].
    pub fn setup_device_context_max_slots<M: VolatileMemory>(&self, mem: &mut M) -> (r: PciResult)
        ensures
            extends(old(mem).history(), final(mem).history()),
            setup_device_context_max_slots_run(
                final(mem).history(),
                old(mem).history().len() as int,
                self.operational().run_stop.field(),
                self.capability().hcs_params1().max_slots().field(),
                self.operational().max_slots_en.field(),
            ) == Some((final(mem).history().len() as int, r)),
    {
        setup_device_context_max_slots(
            mem,
            &self.operational_registers.run_stop,
            &self.capability_registers.hcs_params1().max_slots(),
            &self.operational_registers.max_slots_en,
        )
    }

    /// Obtains the device context array and tells the controller where it
    /// is; see [`allocate_device_context_array`].
    pub fn allocate_device_context_array<M: VolatileMemory, A: MemoryAllocatable>(
        &self,
        mem: &mut M,
        allocator: &mut A,
    ) -> (r: PciResult<u64>)
        ensures
            extends(old(mem).history(), final(mem).history()),
            self.operational().max_slots_en.field().loaded_at(
                final(mem).history(),
                old(mem).history().len() as int,
            ),
            one_request(
                old(allocator).granted(),
                final(allocator).granted(),
                device_context_array_bytes(
                    self.operational().max_slots_en.field().value_at(
                        final(mem).history(),
                        old(mem).history().len() as int,
                    ),
                ),
                64,
                4096,
            ),
            allocate_device_context_array_run(
                final(mem).history(),
                old(mem).history().len() as int,
                self.operational().dcbaap.field(),
                self.operational().max_slots_en.field(),
                final(allocator).granted().last().address,
            ) == Some((final(mem).history().len() as int, r)),
    {
        allocate_device_context_array(
            mem,
            &self.operational_registers.dcbaap,
            &self.operational_registers.max_slots_en,
            allocator,
        )
    }

    /// The address at which the registers begin.
    #[verifier::when_used_as_spec(spec_mmio_addr)]
    pub fn mmio_addr(&self) -> (mmio: MemoryMappedAddr)
        ensures
            mmio == self.spec_mmio_addr(),
    {
        self.mmio_addr
    }

    /// The address at which the operational registers begin.
    #[verifier::when_used_as_spec(spec_operational_offset)]
    pub fn operational_offset(&self) -> (offset: OperationalRegistersOffset)
        ensures
            offset == self.spec_operational_offset(),
    {
        self.operational_offset
    }

    /// The interrupter register set the driver uses.
    pub fn interrupter(&self) -> (set: InterrupterRegisterSet)
        ensures
            set == self.runtime().interrupter,
    {
        self.runtime_registers.interrupter
    }

    /// The operational registers.
    pub fn operational_registers(&self) -> (registers: OperationalRegisters)
        ensures
            registers == self.operational(),
    {
        self.operational_registers
    }

    /// The capability registers.
    pub fn capability_registers(&self) -> (registers: CapabilityRegisters)
        ensures
            registers == self.capability(),
    {
        self.capability_registers
    }
}

} // verus!
