use vstd::prelude::*;

use crate::allocator::not_aligned_64;
use crate::error::AllocateReason;
use crate::error::InvalidRegisterReason;
use crate::error::OperationReason;
use crate::error::PciError;
use crate::error::PciResult;
use crate::registers::capability::invalid_offset;
use crate::registers::capability::segment_table_entries;
use crate::registers::capability::CapabilityLength;
use crate::registers::capability::EventRingSegmentTableMax;
use crate::registers::capability::MemoryMappedAddr;
use crate::registers::capability::RuntimeRegisterSpaceOffset;
use crate::registers::command_ring_control_register::WAIT_LIMIT;
use crate::volatile::and_then_run;
use crate::volatile::confirmed_run;
use crate::volatile::extends;
use crate::volatile::flag_value;
use crate::volatile::lemma_extends_transitive;
use crate::volatile::lemma_low_mask_values;
use crate::volatile::lemma_update_bounds;
use crate::volatile::lemma_update_stable;
use crate::volatile::read_step;
use crate::volatile::update_and_confirm;
use crate::volatile::update_run;
use crate::volatile::write_step;
use crate::volatile::Access;
use crate::volatile::BitField;
use crate::volatile::VolatileMemory;

verus! {

/// The largest number of interrupter register sets a controller can have.
pub const MAX_INTERRUPTERS: usize = 1024;

/// The address at which the runtime registers begin: the base address plus
/// the runtime register space offset.
#[derive(Debug, Clone, Copy)]
pub struct RuntimeRegistersOffset(usize);

impl RuntimeRegistersOffset {
    pub closed spec fn spec_offset(&self) -> usize {
        self.0
    }

    /// The whole block lies inside the address space.
    #[verifier::type_invariant]
    pub open spec fn in_range(&self) -> bool {
        self.spec_offset() + 0x8020 <= usize::MAX
    }

    #[verifier::when_used_as_spec(spec_offset)]
    pub fn offset(&self) -> (value: usize)
        ensures
            value == self.spec_offset(),
            value + 0x8020 <= usize::MAX,
    {
        proof {
            use_type_invariant(self);
        }
        self.0
    }

    /// What [`RuntimeRegistersOffset::new`] does on the accesses of `t` from
    /// index `at` on: it loads the runtime register space offset, given in
    /// units of 32 bytes, and adds it to the base address.
    pub open spec fn new_run(t: Seq<Access>, at: int, mmio: usize, field: BitField) -> Option<
        (int, PciResult<usize>),
    > {
        if !field.loaded_at(t, at) {
            None
        } else {
            let bytes = 32 * field.value_at(t, at);
            if mmio + bytes + 0x8020 <= usize::MAX {
                Some((at + 1, Ok((mmio + bytes) as usize)))
            } else {
                Some((at + 1, Err(invalid_offset(bytes as usize))))
            }
        }
    }

    /// Reads the runtime register space offset and places the runtime
    /// registers that many bytes above the base address. Fails when the
    /// block, with all its interrupter register sets, would not fit into the
    /// address space.
    pub fn new<M: VolatileMemory>(
        mem: &mut M,
        mmio: MemoryMappedAddr,
        rts_off: &RuntimeRegisterSpaceOffset,
    ) -> (r: PciResult<Self>)
        ensures
            extends(old(mem).history(), final(mem).history()),
            match Self::new_run(
                final(mem).history(),
                old(mem).history().len() as int,
                mmio.addr(),
                rts_off.field(),
            ) {
                Some((end, Ok(offset))) => end == final(mem).history().len() && (r matches Ok(o)
                    && o.offset() == offset),
                Some((end, Err(e))) => end == final(mem).history().len() && r == Err::<Self, PciError>(
                    e,
                ),
                None => false,
            },
    {
        let bytes = rts_off.read_offset(mem) as usize;
        let base = mmio.addr();
        if bytes <= usize::MAX - 0x8020 && base <= usize::MAX - 0x8020 - bytes {
            Ok(Self(base + bytes))
        } else {
            Err(PciError::InvalidRegister(InvalidRegisterReason::InvalidOffset { value: bytes }))
        }
    }
}

/// The address at which one interrupter register set begins.
#[derive(Debug, Clone, Copy)]
pub struct InterrupterRegisterSetOffset(usize);

impl InterrupterRegisterSetOffset {
    pub closed spec fn spec_offset(&self) -> usize {
        self.0
    }

    /// The whole block lies inside the address space.
    #[verifier::type_invariant]
    pub open spec fn in_range(&self) -> bool {
        self.spec_offset() + 0x20 <= usize::MAX
    }

    #[verifier::when_used_as_spec(spec_offset)]
    pub fn offset(&self) -> (value: usize)
        ensures
            value == self.spec_offset(),
            value + 0x20 <= usize::MAX,
    {
        proof {
            use_type_invariant(self);
        }
        self.0
    }

    /// The register set with the number `index` of the runtime registers at
    /// `offset`: the sets follow the first 0x20 bytes of the block and take
    /// 0x20 bytes each.
    pub fn new(offset: RuntimeRegistersOffset, index: usize) -> (set: Self)
        requires
            index < MAX_INTERRUPTERS,
        ensures
            set.offset() == offset.offset() + 0x20 + 0x20 * index,
    {
        Self(offset.offset() + 0x20 + 0x20 * index)
    }
}

/// IP: set by the controller while an interrupt of this interrupter is
/// pending.
#[derive(Debug, Clone, Copy)]
pub struct InterruptPending(usize);

impl InterruptPending {
    /// The address of the register that holds the field.
    pub closed spec fn addr(self) -> usize {
        self.0
    }

    /// Where the field lies in that register.
    pub open spec fn field(self) -> BitField {
        BitField { addr: self.addr(), wide: false, offset: 0, bits: 1 }
    }

    /// Where the field lies for the block that begins at the address
    /// `block`.
    pub open spec fn field_at(block: usize) -> BitField {
        BitField { addr: block, wide: false, offset: 0, bits: 1 }
    }

    pub fn new(offset: InterrupterRegisterSetOffset) -> (register: Self)
        ensures
            register.addr() == offset.offset(),
            register.field() == Self::field_at(offset.offset()),
    {
        Self(offset.offset())
    }

    /// The field as a value that performs the accesses.
    pub fn bit_field(&self) -> (field: BitField)
        ensures
            field == self.field(),
            field.wf(),
    {
        BitField::new(self.0, false, 0, 1)
    }

    /// Loads the register and returns whether the flag is set.
    pub fn read_flag_volatile<M: VolatileMemory>(&self, mem: &mut M) -> (flag: bool)
        ensures
            read_step(old(mem).history(), final(mem).history(), self.field(), flag_value(flag)),
    {
        let field = self.bit_field();
        proof {
            lemma_low_mask_values();
        }
        field.read(mem) != 0
    }

    /// Sets or clears the flag and keeps the other bits of the register.
    pub fn write_flag_volatile<M: VolatileMemory>(&self, mem: &mut M, flag: bool)
        ensures
            write_step(old(mem).history(), final(mem).history(), self.field(), flag_value(flag)),
    {
        let field = self.bit_field();
        field.write(
            mem,
            if flag {
                1
            } else {
                0
            },
        );
    }
}

/// IE: set to let this interrupter raise interrupts.
#[derive(Debug, Clone, Copy)]
pub struct InterruptEnable(usize);

impl InterruptEnable {
    /// The address of the register that holds the field.
    pub closed spec fn addr(self) -> usize {
        self.0
    }

    /// Where the field lies in that register.
    pub open spec fn field(self) -> BitField {
        BitField { addr: self.addr(), wide: false, offset: 1, bits: 1 }
    }

    /// Where the field lies for the block that begins at the address
    /// `block`.
    pub open spec fn field_at(block: usize) -> BitField {
        BitField { addr: block, wide: false, offset: 1, bits: 1 }
    }

    pub fn new(offset: InterrupterRegisterSetOffset) -> (register: Self)
        ensures
            register.addr() == offset.offset(),
            register.field() == Self::field_at(offset.offset()),
    {
        Self(offset.offset())
    }

    /// The field as a value that performs the accesses.
    pub fn bit_field(&self) -> (field: BitField)
        ensures
            field == self.field(),
            field.wf(),
    {
        BitField::new(self.0, false, 1, 1)
    }

    /// Loads the register and returns whether the flag is set.
    pub fn read_flag_volatile<M: VolatileMemory>(&self, mem: &mut M) -> (flag: bool)
        ensures
            read_step(old(mem).history(), final(mem).history(), self.field(), flag_value(flag)),
    {
        let field = self.bit_field();
        proof {
            lemma_low_mask_values();
        }
        field.read(mem) != 0
    }

    /// Sets or clears the flag and keeps the other bits of the register.
    pub fn write_flag_volatile<M: VolatileMemory>(&self, mem: &mut M, flag: bool)
        ensures
            write_step(old(mem).history(), final(mem).history(), self.field(), flag_value(flag)),
    {
        let field = self.bit_field();
        field.write(
            mem,
            if flag {
                1
            } else {
                0
            },
        );
    }
}

/// ERSTSZ: the number of entries of the event ring segment table.
#[derive(Debug, Clone, Copy)]
pub struct EventRingSegmentTableSize(usize);

impl EventRingSegmentTableSize {
    /// The address of the register that holds the field.
    pub closed spec fn addr(self) -> usize {
        self.0
    }

    /// Where the field lies in that register.
    pub open spec fn field(self) -> BitField {
        BitField { addr: self.addr(), wide: false, offset: 0, bits: 32 }
    }

    /// Where the field lies for the block that begins at the address
    /// `block`.
    pub open spec fn field_at(block: usize) -> BitField {
        BitField { addr: (block + 0x8) as usize, wide: false, offset: 0, bits: 32 }
    }

    pub fn new(offset: InterrupterRegisterSetOffset) -> (register: Self)
        ensures
            register.addr() == offset.offset() + 0x8,
            register.field() == Self::field_at(offset.offset()),
    {
        Self(offset.offset() + 0x8)
    }

    /// The field as a value that performs the accesses.
    pub fn bit_field(&self) -> (field: BitField)
        ensures
            field == self.field(),
            field.wf(),
    {
        BitField::new(self.0, false, 0, 32)
    }

    /// Loads the register and returns the field.
    pub fn read_volatile<M: VolatileMemory>(&self, mem: &mut M) -> (value: u32)
        ensures
            read_step(old(mem).history(), final(mem).history(), self.field(), value as u64),
            value <= self.field().max_value(),
    {
        let field = self.bit_field();
        proof {
            lemma_low_mask_values();
        }
        field.read(mem) as u32
    }

    /// Stores `value` into the field and keeps the other bits of the
    /// register.
    pub fn write_volatile<M: VolatileMemory>(&self, mem: &mut M, value: u32)
        ensures
            write_step(old(mem).history(), final(mem).history(), self.field(), value as u64),
    {
        let field = self.bit_field();
        field.write(mem, value as u64);
    }
}

/// ERSTBA: the address of the event ring segment table without its six
/// lowest bits, which are zero for a table on a 64-byte boundary.
#[derive(Debug, Clone, Copy)]
pub struct EventRingSegmentTableBaseAddress(usize);

impl EventRingSegmentTableBaseAddress {
    /// The address of the register that holds the field.
    pub closed spec fn addr(self) -> usize {
        self.0
    }

    /// Where the field lies in that register.
    pub open spec fn field(self) -> BitField {
        BitField { addr: self.addr(), wide: true, offset: 6, bits: 58 }
    }

    /// Where the field lies for the block that begins at the address
    /// `block`.
    pub open spec fn field_at(block: usize) -> BitField {
        BitField { addr: (block + 0x10) as usize, wide: true, offset: 6, bits: 58 }
    }

    pub fn new(offset: InterrupterRegisterSetOffset) -> (register: Self)
        ensures
            register.addr() == offset.offset() + 0x10,
            register.field() == Self::field_at(offset.offset()),
    {
        Self(offset.offset() + 0x10)
    }

    /// The field as a value that performs the accesses.
    pub fn bit_field(&self) -> (field: BitField)
        ensures
            field == self.field(),
            field.wf(),
    {
        BitField::new(self.0, true, 6, 58)
    }

    /// Loads the register and returns the field.
    pub fn read_volatile<M: VolatileMemory>(&self, mem: &mut M) -> (value: u64)
        ensures
            read_step(old(mem).history(), final(mem).history(), self.field(), value),
            value <= self.field().max_value(),
    {
        let field = self.bit_field();
        proof {
            lemma_low_mask_values();
        }
        field.read(mem)
    }

    /// Stores `value` into the field and keeps the other bits of the
    /// register.
    pub fn write_volatile<M: VolatileMemory>(&self, mem: &mut M, value: u64)
        ensures
            write_step(old(mem).history(), final(mem).history(), self.field(), value),
    {
        let field = self.bit_field();
        field.write(mem, value);
    }
}

/// EHB: set by the controller when it raises an interrupt; the driver
/// clears it by storing a one when it has caught up.
#[derive(Debug, Clone, Copy)]
pub struct EventHandlerBusy(usize);

impl EventHandlerBusy {
    /// The address of the register that holds the field.
    pub closed spec fn addr(self) -> usize {
        self.0
    }

    /// Where the field lies in that register.
    pub open spec fn field(self) -> BitField {
        BitField { addr: self.addr(), wide: true, offset: 3, bits: 1 }
    }

    /// Where the field lies for the block that begins at the address
    /// `block`.
    pub open spec fn field_at(block: usize) -> BitField {
        BitField { addr: (block + 0x18) as usize, wide: true, offset: 3, bits: 1 }
    }

    pub fn new(offset: InterrupterRegisterSetOffset) -> (register: Self)
        ensures
            register.addr() == offset.offset() + 0x18,
            register.field() == Self::field_at(offset.offset()),
    {
        Self(offset.offset() + 0x18)
    }

    /// The field as a value that performs the accesses.
    pub fn bit_field(&self) -> (field: BitField)
        ensures
            field == self.field(),
            field.wf(),
    {
        BitField::new(self.0, true, 3, 1)
    }

    /// Loads the register and returns whether the flag is set.
    pub fn read_flag_volatile<M: VolatileMemory>(&self, mem: &mut M) -> (flag: bool)
        ensures
            read_step(old(mem).history(), final(mem).history(), self.field(), flag_value(flag)),
    {
        let field = self.bit_field();
        proof {
            lemma_low_mask_values();
        }
        field.read(mem) != 0
    }

    /// Sets or clears the flag and keeps the other bits of the register.
    pub fn write_flag_volatile<M: VolatileMemory>(&self, mem: &mut M, flag: bool)
        ensures
            write_step(old(mem).history(), final(mem).history(), self.field(), flag_value(flag)),
    {
        let field = self.bit_field();
        field.write(
            mem,
            if flag {
                1
            } else {
                0
            },
        );
    }
}

/// ERDP: the address up to which the driver has taken events off the event
/// ring, without its four lowest bits.
#[derive(Debug, Clone, Copy)]
pub struct EventRingDequeuePointer(usize);

impl EventRingDequeuePointer {
    /// The address of the register that holds the field.
    pub closed spec fn addr(self) -> usize {
        self.0
    }

    /// Where the field lies in that register.
    pub open spec fn field(self) -> BitField {
        BitField { addr: self.addr(), wide: true, offset: 4, bits: 60 }
    }

    /// Where the field lies for the block that begins at the address
    /// `block`.
    pub open spec fn field_at(block: usize) -> BitField {
        BitField { addr: (block + 0x18) as usize, wide: true, offset: 4, bits: 60 }
    }

    pub fn new(offset: InterrupterRegisterSetOffset) -> (register: Self)
        ensures
            register.addr() == offset.offset() + 0x18,
            register.field() == Self::field_at(offset.offset()),
    {
        Self(offset.offset() + 0x18)
    }

    /// The field as a value that performs the accesses.
    pub fn bit_field(&self) -> (field: BitField)
        ensures
            field == self.field(),
            field.wf(),
    {
        BitField::new(self.0, true, 4, 60)
    }

    /// Loads the register and returns the field.
    pub fn read_volatile<M: VolatileMemory>(&self, mem: &mut M) -> (value: u64)
        ensures
            read_step(old(mem).history(), final(mem).history(), self.field(), value),
            value <= self.field().max_value(),
    {
        let field = self.bit_field();
        proof {
            lemma_low_mask_values();
        }
        field.read(mem)
    }

    /// Stores `value` into the field and keeps the other bits of the
    /// register.
    pub fn write_volatile<M: VolatileMemory>(&self, mem: &mut M, value: u64)
        ensures
            write_step(old(mem).history(), final(mem).history(), self.field(), value),
    {
        let field = self.bit_field();
        field.write(mem, value);
    }
}

/// The 16 lowest bits of `addr`.
pub fn mask_16_bits(addr: u32) -> (low: u16)
    ensures
        low == addr % 0x1_0000,
{
    assert(addr & 0xFF_FF == addr % 0x1_0000) by (bit_vector);
    (addr & 0xFF_FF) as u16
}

/// The error for more segments than the controller supports.
pub open spec fn exceeds_segment_table_max(max: u32, value: u16) -> PciError {
    PciError::FailedOperateToRegister(
        OperationReason::ExceedsEventRingSegmentTableMax { max, value },
    )
}

impl EventRingSegmentTableSize {
    /// Loads the register and returns the number of segment table entries,
    /// which is held in its 16 lowest bits.
    pub fn event_ring_segment_table_size<M: VolatileMemory>(&self, mem: &mut M) -> (size: u16)
        ensures
            extends(old(mem).history(), final(mem).history()),
            final(mem).history().len() == old(mem).history().len() + 1,
            self.field().loaded_at(final(mem).history(), old(mem).history().len() as int),
            size == self.field().value_at(final(mem).history(), old(mem).history().len() as int)
                % 0x1_0000,
    {
        mask_16_bits(self.read_volatile(mem))
    }

    /// What
    /// [`EventRingSegmentTableSize::update_event_ring_segment_table_size`]
    /// does on the accesses of `t` from index `at` on, where `erst_max` is
    /// the field that limits the number of segments.
    pub open spec fn update_event_ring_segment_table_size_run(
        self,
        t: Seq<Access>,
        at: int,
        erst_max: BitField,
        segments_count: u16,
    ) -> Option<(int, PciResult)> {
        if !erst_max.loaded_at(t, at) {
            None
        } else if segment_table_entries(erst_max.value_at(t, at)) < segments_count {
            Some(
                (
                    at + 1,
                    Err(
                        exceeds_segment_table_max(
                            segment_table_entries(erst_max.value_at(t, at)),
                            segments_count,
                        ),
                    ),
                ),
            )
        } else {
            confirmed_run(
                update_run(t, at + 1, self.field(), segments_count as u64, WAIT_LIMIT as nat),
                segments_count as u64,
                WAIT_LIMIT,
            )
        }
    }

    /// Sets the number of event ring segments and waits until the register
    /// shows it.
    ///
    /// A number above what the controller supports is refused with
    /// `ExceedsEventRingSegmentTableMax` and nothing is stored. A number
    /// that the register does not show within [`WAIT_LIMIT`] loads is a
    /// timeout.
    pub fn update_event_ring_segment_table_size<M: VolatileMemory>(
        &self,
        mem: &mut M,
        erst_max: &EventRingSegmentTableMax,
        segments_count: u16,
    ) -> (r: PciResult)
        ensures
            extends(old(mem).history(), final(mem).history()),
            self.update_event_ring_segment_table_size_run(
                final(mem).history(),
                old(mem).history().len() as int,
                erst_max.field(),
                segments_count,
            ) == Some((final(mem).history().len() as int, r)),
    {
        let ghost t0 = mem.history();
        let max = erst_max.max_entries(mem);
        if max < segments_count as u32 {
            return Err(
                PciError::FailedOperateToRegister(
                    OperationReason::ExceedsEventRingSegmentTableMax { max, value: segments_count },
                ),
            );
        }
        let ghost t1 = mem.history();
        let field = self.bit_field();
        let r = update_and_confirm(mem, &field, segments_count as u64, WAIT_LIMIT);
        proof {
            lemma_extends_transitive(t0, t1, mem.history());
        }
        r
    }
}

impl EventRingSegmentTableBaseAddress {
    /// What
    /// [`EventRingSegmentTableBaseAddress::update_event_ring_segment_table_addr`]
    /// does on the accesses of `t` from index `at` on.
    pub open spec fn update_event_ring_segment_table_addr_run(
        self,
        t: Seq<Access>,
        at: int,
        addr: u64,
    ) -> Option<(int, PciResult)> {
        if addr % 64 != 0 {
            Some((at, Err(not_aligned_64())))
        } else {
            confirmed_run(
                update_run(t, at, self.field(), addr >> 6, WAIT_LIMIT as nat),
                addr >> 6,
                WAIT_LIMIT,
            )
        }
    }

    /// Points the controller at the event ring segment table at `addr` and
    /// waits until the register shows the new pointer.
    ///
    /// An address that is not a multiple of 64 is refused before any access.
    /// A pointer that the register does not show within [`WAIT_LIMIT`] loads
    /// is a timeout.
    pub fn update_event_ring_segment_table_addr<M: VolatileMemory>(
        &self,
        mem: &mut M,
        addr: u64,
    ) -> (r: PciResult)
        ensures
            extends(old(mem).history(), final(mem).history()),
            self.update_event_ring_segment_table_addr_run(
                final(mem).history(),
                old(mem).history().len() as int,
                addr,
            ) == Some((final(mem).history().len() as int, r)),
    {
        if addr % 64 != 0 {
            return Err(
                PciError::FailedAllocate(AllocateReason::NotAlignedAddress { expect_align_size: 64 }),
            );
        }
        let field = self.bit_field();
        update_and_confirm(mem, &field, addr >> 6, WAIT_LIMIT)
    }
}

impl EventRingDequeuePointer {
    /// Tells the controller that the driver has taken all events below
    /// `addr`. The four lowest bits of `addr` are not part of the pointer
    /// and are dropped.
    pub fn update_dequeue_pointer<M: VolatileMemory>(&self, mem: &mut M, addr: u64)
        ensures
            write_step(old(mem).history(), final(mem).history(), self.field(), addr >> 4),
    {
        self.write_volatile(mem, addr >> 4);
    }
}

/// The registers of one interrupter.
#[derive(Debug, Clone, Copy)]
pub struct InterrupterRegisterSet {
    pub ip: InterruptPending,
    pub ie: InterruptEnable,
    pub erstsz: EventRingSegmentTableSize,
    pub erstba: EventRingSegmentTableBaseAddress,
    pub ehb: EventHandlerBusy,
    pub erdp: EventRingDequeuePointer,
}

impl InterrupterRegisterSet {
    /// The fields all belong to the register set that begins at `offset`.
    pub open spec fn lies_at(self, set: usize) -> bool {
        &&& self.ip.field() == InterruptPending::field_at(set)
        &&& self.ie.field() == InterruptEnable::field_at(set)
        &&& self.erstsz.field() == EventRingSegmentTableSize::field_at(set)
        &&& self.erstba.field() == EventRingSegmentTableBaseAddress::field_at(set)
        &&& self.ehb.field() == EventHandlerBusy::field_at(set)
        &&& self.erdp.field() == EventRingDequeuePointer::field_at(set)
    }

    pub fn new(offset: InterrupterRegisterSetOffset) -> (set: Self)
        ensures
            set.lies_at(offset.offset()),
    {
        Self {
            ip: InterruptPending::new(offset),
            ie: InterruptEnable::new(offset),
            erstsz: EventRingSegmentTableSize::new(offset),
            erstba: EventRingSegmentTableBaseAddress::new(offset),
            ehb: EventHandlerBusy::new(offset),
            erdp: EventRingDequeuePointer::new(offset),
        }
    }

    /// What [`InterrupterRegisterSet::register_event_ring`] does on the
    /// accesses of `t` from index `at` on.
    pub open spec fn register_event_ring_run(
        self,
        t: Seq<Access>,
        at: int,
        erst_max: BitField,
        table_addr: u64,
        segments_count: u16,
        dequeue_addr: u64,
    ) -> Option<(int, PciResult)> {
        and_then_run(
            self.erstsz.update_event_ring_segment_table_size_run(t, at, erst_max, segments_count),
            |a1: int|
                if !self.erdp.field().stored_at(t, a1, dequeue_addr >> 4) {
                    None
                } else {
                    and_then_run(
                        self.erstba.update_event_ring_segment_table_addr_run(t, a1 + 2, table_addr),
                        |a2: int|
                            if self.ie.field().stored_at(t, a2, 1) {
                                Some((a2 + 2, Ok(())))
                            } else {
                                None
                            },
                    )
                },
        )
    }

    /// What handing over an event ring did stays what it did when more
    /// accesses follow.
    pub proof fn lemma_register_event_ring_stable(
        self,
        t: Seq<Access>,
        later: Seq<Access>,
        at: int,
        erst_max: BitField,
        table_addr: u64,
        segments_count: u16,
        dequeue_addr: u64,
    )
        requires
            extends(t, later),
            0 <= at,
            self.register_event_ring_run(
                t,
                at,
                erst_max,
                table_addr,
                segments_count,
                dequeue_addr,
            ) matches Some((end, _)) && end <= t.len(),
        ensures
            self.register_event_ring_run(
                later,
                at,
                erst_max,
                table_addr,
                segments_count,
                dequeue_addr,
            ) == self.register_event_ring_run(
                t,
                at,
                erst_max,
                table_addr,
                segments_count,
                dequeue_addr,
            ),
    {
        let count = segments_count as u64;
        if segment_table_entries(erst_max.value_at(t, at)) >= segments_count {
            let sized = update_run(t, at + 1, self.erstsz.field(), count, WAIT_LIMIT as nat);
            assert(sized is Some);
            lemma_update_bounds(t, at + 1, self.erstsz.field(), count, WAIT_LIMIT as nat);
            let a1 = sized->Some_0.0;
            if sized->Some_0.1 {
                if table_addr % 64 == 0 {
                    let based = update_run(
                        t,
                        a1 + 2,
                        self.erstba.field(),
                        table_addr >> 6,
                        WAIT_LIMIT as nat,
                    );
                    assert(based is Some);
                    lemma_update_bounds(
                        t,
                        a1 + 2,
                        self.erstba.field(),
                        table_addr >> 6,
                        WAIT_LIMIT as nat,
                    );
                    lemma_update_stable(
                        t,
                        later,
                        a1 + 2,
                        self.erstba.field(),
                        table_addr >> 6,
                        WAIT_LIMIT as nat,
                    );
                }
            }
            lemma_update_stable(t, later, at + 1, self.erstsz.field(), count, WAIT_LIMIT as nat);
        }
    }

    /// Hands an event ring to the interrupter: the number of segments, the
    /// dequeue pointer and the address of the segment table are stored, in
    /// this order, and the interrupter is enabled. Stops at the first step
    /// that fails.
    pub fn register_event_ring<M: VolatileMemory>(
        &self,
        mem: &mut M,
        erst_max: &EventRingSegmentTableMax,
        table_addr: u64,
        segments_count: u16,
        dequeue_addr: u64,
    ) -> (r: PciResult)
        ensures
            extends(old(mem).history(), final(mem).history()),
            self.register_event_ring_run(
                final(mem).history(),
                old(mem).history().len() as int,
                erst_max.field(),
                table_addr,
                segments_count,
                dequeue_addr,
            ) == Some((final(mem).history().len() as int, r)),
    {
        let ghost t0 = mem.history();
        let ghost at = t0.len() as int;
        match self.erstsz.update_event_ring_segment_table_size(mem, erst_max, segments_count) {
            Ok(_) => {},
            Err(e) => {
                return Err(e);
            },
        }
        let ghost t1 = mem.history();
        self.erdp.update_dequeue_pointer(mem, dequeue_addr);
        let ghost t2 = mem.history();
        let updated = self.erstba.update_event_ring_segment_table_addr(mem, table_addr);
        let ghost t3 = mem.history();
        proof {
            lemma_extends_transitive(t0, t1, t2);
            lemma_extends_transitive(t0, t2, t3);
            lemma_extends_transitive(t1, t2, t3);
            lemma_update_bounds(
                t1,
                at + 1,
                self.erstsz.field(),
                segments_count as u64,
                WAIT_LIMIT as nat,
            );
            lemma_update_stable(
                t1,
                t3,
                at + 1,
                self.erstsz.field(),
                segments_count as u64,
                WAIT_LIMIT as nat,
            );
        }
        match updated {
            Ok(_) => {},
            Err(e) => {
                return Err(e);
            },
        }
        self.ie.write_flag_volatile(mem, true);
        proof {
            let t4 = mem.history();
            lemma_extends_transitive(t0, t3, t4);
            lemma_extends_transitive(t1, t3, t4);
            lemma_update_stable(
                t1,
                t4,
                at + 1,
                self.erstsz.field(),
                segments_count as u64,
                WAIT_LIMIT as nat,
            );
            if table_addr % 64 == 0 {
                lemma_update_stable(
                    t3,
                    t4,
                    t2.len() as int,
                    self.erstba.field(),
                    table_addr >> 6,
                    WAIT_LIMIT as nat,
                );
            }
        }
        Ok(())
    }
}

/// The runtime registers: the interrupter register sets, of which the
/// driver uses the first.
#[derive(Debug, Clone, Copy)]
pub struct RuntimeRegisters {
    pub interrupter: InterrupterRegisterSet,
}

impl RuntimeRegisters {
    /// The first interrupter register set of the runtime registers at
    /// `offset`.
    pub fn new(offset: RuntimeRegistersOffset) -> (registers: Self)
        ensures
            registers.interrupter.lies_at((offset.offset() + 0x20) as usize),
    {
        Self { interrupter: InterrupterRegisterSet::new(InterrupterRegisterSetOffset::new(offset, 0)) }
    }
}

/// What [`runtime_registers_offset`] does on the accesses of `t` from index
/// `at` on: the capability length and the runtime register space offset
/// are checked, then the offset is loaded once more to place the block.
pub open spec fn runtime_registers_offset_run(t: Seq<Access>, at: int, mmio: usize) -> Option<
    (int, PciResult<usize>),
> {
    match and_then_run(
        CapabilityLength::new_check_length_run(t, at, mmio),
        |a1: int|
            RuntimeRegisterSpaceOffset::new_with_check_size_run(
                t,
                a1,
                mmio,
                CapabilityLength::field_at(mmio),
            ),
    ) {
        None => None,
        Some((end, Err(e))) => Some((end, Err(e))),
        Some((end, Ok(_))) => RuntimeRegistersOffset::new_run(
            t,
            end,
            mmio,
            RuntimeRegisterSpaceOffset::field_at(mmio),
        ),
    }
}

/// Finds the runtime registers of the controller at `mmio`.
pub fn runtime_registers_offset<M: VolatileMemory>(mem: &mut M, mmio: MemoryMappedAddr) -> (r:
    PciResult<RuntimeRegistersOffset>)
    ensures
        extends(old(mem).history(), final(mem).history()),
        match runtime_registers_offset_run(
            final(mem).history(),
            old(mem).history().len() as int,
            mmio.addr(),
        ) {
            Some((end, Ok(offset))) => end == final(mem).history().len() && (r matches Ok(o)
                && o.offset() == offset),
            Some((end, Err(e))) => end == final(mem).history().len() && r == Err::<
                RuntimeRegistersOffset,
                PciError,
            >(e),
            None => false,
        },
{
    let ghost t0 = mem.history();
    let cap_length = match CapabilityLength::new_check_length(mem, mmio) {
        Ok(cap_length) => cap_length,
        Err(e) => {
            return Err(e);
        },
    };
    let ghost t1 = mem.history();
    let rts_off = match RuntimeRegisterSpaceOffset::new_with_check_size(mem, mmio, &cap_length) {
        Ok(rts_off) => rts_off,
        Err(e) => {
            proof {
                lemma_extends_transitive(t0, t1, mem.history());
            }
            return Err(e);
        },
    };
    let ghost t2 = mem.history();
    let r = RuntimeRegistersOffset::new(mem, mmio, &rts_off);
    proof {
        lemma_extends_transitive(t0, t1, t2);
        lemma_extends_transitive(t0, t2, mem.history());
    }
    r
}

/// Finds the interrupter register set with the number `index` of the
/// controller at `mmio`. An index of [`MAX_INTERRUPTERS`] or more is
/// refused before any access.
pub fn interrupter_register_set_offset<M: VolatileMemory>(
    mem: &mut M,
    mmio: MemoryMappedAddr,
    index: usize,
) -> (r: PciResult<InterrupterRegisterSetOffset>)
    ensures
        extends(old(mem).history(), final(mem).history()),
        index >= MAX_INTERRUPTERS ==> final(mem).history() == old(mem).history() && r == Err::<
            InterrupterRegisterSetOffset,
            PciError,
        >(invalid_offset(index)),
        index < MAX_INTERRUPTERS ==> match runtime_registers_offset_run(
            final(mem).history(),
            old(mem).history().len() as int,
            mmio.addr(),
        ) {
            Some((end, Ok(offset))) => end == final(mem).history().len() && (r matches Ok(o)
                && o.offset() == offset + 0x20 + 0x20 * index),
            Some((end, Err(e))) => end == final(mem).history().len() && r == Err::<
                InterrupterRegisterSetOffset,
                PciError,
            >(e),
            None => false,
        },
{
    if index >= MAX_INTERRUPTERS {
        return Err(PciError::InvalidRegister(InvalidRegisterReason::InvalidOffset { value: index }));
    }
    match runtime_registers_offset(mem, mmio) {
        Ok(offset) => Ok(InterrupterRegisterSetOffset::new(offset, index)),
        Err(e) => Err(e),
    }
}

} // verus!
