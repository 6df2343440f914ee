use vstd::prelude::*;

use crate::error::InvalidRegisterReason;
use crate::error::PciError;
use crate::error::PciResult;
use crate::volatile::and_then_run;
use crate::volatile::extends;
use crate::volatile::lemma_extends_transitive;
use crate::volatile::lemma_low_mask_values;
use crate::volatile::read_step;
use crate::volatile::write_step;
use crate::volatile::Access;
use crate::volatile::BitField;
use crate::volatile::VolatileMemory;

verus! {

/// The number of bytes the capability registers take up at least.
pub const CAPABILITY_REGISTERS_SIZE: usize = 0x20;

/// The physical address at which the controller's registers begin.
///
/// The capability registers, which start at this address, lie inside the
/// address space.
#[derive(Debug, Clone, Copy)]
pub struct MemoryMappedAddr(usize);

impl MemoryMappedAddr {
    pub closed spec fn spec_addr(&self) -> usize {
        self.0
    }

    /// The whole block lies inside the address space.
    #[verifier::type_invariant]
    pub open spec fn in_range(&self) -> bool {
        self.spec_addr() + 0x20 <= usize::MAX
    }

    #[verifier::when_used_as_spec(spec_addr)]
    pub fn addr(&self) -> (value: usize)
        ensures
            value == self.spec_addr(),
            value + 0x20 <= usize::MAX,
    {
        proof {
            use_type_invariant(self);
        }
        self.0
    }

    /// Accepts `addr` when the capability registers fit above it.
    pub fn new(addr: usize) -> (r: PciResult<Self>)
        ensures
            r is Ok <==> addr + 0x20 <= usize::MAX,
            r matches Ok(mmio) ==> mmio.addr() == addr,
            r is Err ==> r == Err::<Self, PciError>(
                PciError::InvalidRegister(InvalidRegisterReason::InvalidOffset { value: addr }),
            ),
    {
        if addr <= usize::MAX - 0x20 {
            Ok(Self(addr))
        } else {
            Err(PciError::InvalidRegister(InvalidRegisterReason::InvalidOffset { value: addr }))
        }
    }
}

/// CAPLENGTH: the number of bytes from the base address to the operational
/// registers.
#[derive(Debug, Clone, Copy)]
pub struct CapabilityLength(usize);

impl CapabilityLength {
    /// The address of the register that holds the field.
    pub closed spec fn addr(self) -> usize {
        self.0
    }

    /// Where the field lies in that register.
    pub open spec fn field(self) -> BitField {
        BitField { addr: self.addr(), wide: false, offset: 0, bits: 8 }
    }

    /// Where the field lies for the block that begins at the address
    /// `block`.
    pub open spec fn field_at(block: usize) -> BitField {
        BitField { addr: block, wide: false, offset: 0, bits: 8 }
    }

    pub fn new(offset: MemoryMappedAddr) -> (register: Self)
        ensures
            register.addr() == offset.addr(),
            register.field() == Self::field_at(offset.addr()),
    {
        Self(offset.addr())
    }

    /// The field as a value that performs the accesses.
    pub fn bit_field(&self) -> (field: BitField)
        ensures
            field == self.field(),
            field.wf(),
    {
        BitField::new(self.0, false, 0, 8)
    }

    /// Loads the register and returns the field.
    pub fn read_volatile<M: VolatileMemory>(&self, mem: &mut M) -> (value: u8)
        ensures
            read_step(old(mem).history(), final(mem).history(), self.field(), value as u64),
            value <= self.field().max_value(),
    {
        let field = self.bit_field();
        proof {
            lemma_low_mask_values();
        }
        field.read(mem) as u8
    }

    /// Stores `value` into the field and keeps the other bits of the
    /// register.
    pub fn write_volatile<M: VolatileMemory>(&self, mem: &mut M, value: u8)
        ensures
            write_step(old(mem).history(), final(mem).history(), self.field(), value as u64),
    {
        let field = self.bit_field();
        field.write(mem, value as u64);
    }
}

/// HCIVERSION: the revision of the interface the controller implements, in
/// binary coded decimal.
#[derive(Debug, Clone, Copy)]
pub struct HciVersion(usize);

impl HciVersion {
    /// The address of the register that holds the field.
    pub closed spec fn addr(self) -> usize {
        self.0
    }

    /// Where the field lies in that register.
    pub open spec fn field(self) -> BitField {
        BitField { addr: self.addr(), wide: false, offset: 16, bits: 16 }
    }

    /// Where the field lies for the block that begins at the address
    /// `block`.
    pub open spec fn field_at(block: usize) -> BitField {
        BitField { addr: block, wide: false, offset: 16, bits: 16 }
    }

    pub fn new(offset: MemoryMappedAddr) -> (register: Self)
        ensures
            register.addr() == offset.addr(),
            register.field() == Self::field_at(offset.addr()),
    {
        Self(offset.addr())
    }

    /// The field as a value that performs the accesses.
    pub fn bit_field(&self) -> (field: BitField)
        ensures
            field == self.field(),
            field.wf(),
    {
        BitField::new(self.0, false, 16, 16)
    }

    /// Loads the register and returns the field.
    pub fn read_volatile<M: VolatileMemory>(&self, mem: &mut M) -> (value: u16)
        ensures
            read_step(old(mem).history(), final(mem).history(), self.field(), value as u64),
            value <= self.field().max_value(),
    {
        let field = self.bit_field();
        proof {
            lemma_low_mask_values();
        }
        field.read(mem) as u16
    }

    /// Stores `value` into the field and keeps the other bits of the
    /// register.
    pub fn write_volatile<M: VolatileMemory>(&self, mem: &mut M, value: u16)
        ensures
            write_step(old(mem).history(), final(mem).history(), self.field(), value as u64),
    {
        let field = self.bit_field();
        field.write(mem, value as u64);
    }
}

/// MaxSlots: the number of device slots the controller supports.
#[derive(Debug, Clone, Copy)]
pub struct NumberOfDeviceSlots(usize);

impl NumberOfDeviceSlots {
    /// The address of the register that holds the field.
    pub closed spec fn addr(self) -> usize {
        self.0
    }

    /// Where the field lies in that register.
    pub open spec fn field(self) -> BitField {
        BitField { addr: self.addr(), wide: false, offset: 0, bits: 8 }
    }

    /// Where the field lies for the block that begins at the address
    /// `block`.
    pub open spec fn field_at(block: usize) -> BitField {
        BitField { addr: (block + 0x4) as usize, wide: false, offset: 0, bits: 8 }
    }

    pub fn new(offset: MemoryMappedAddr) -> (register: Self)
        ensures
            register.addr() == offset.addr() + 0x4,
            register.field() == Self::field_at(offset.addr()),
    {
        Self(offset.addr() + 0x4)
    }

    /// The field as a value that performs the accesses.
    pub fn bit_field(&self) -> (field: BitField)
        ensures
            field == self.field(),
            field.wf(),
    {
        BitField::new(self.0, false, 0, 8)
    }

    /// Loads the register and returns the field.
    pub fn read_volatile<M: VolatileMemory>(&self, mem: &mut M) -> (value: u8)
        ensures
            read_step(old(mem).history(), final(mem).history(), self.field(), value as u64),
            value <= self.field().max_value(),
    {
        let field = self.bit_field();
        proof {
            lemma_low_mask_values();
        }
        field.read(mem) as u8
    }

    /// Stores `value` into the field and keeps the other bits of the
    /// register.
    pub fn write_volatile<M: VolatileMemory>(&self, mem: &mut M, value: u8)
        ensures
            write_step(old(mem).history(), final(mem).history(), self.field(), value as u64),
    {
        let field = self.bit_field();
        field.write(mem, value as u64);
    }
}

/// MaxPorts: the number of root hub ports the controller has.
#[derive(Debug, Clone, Copy)]
pub struct NumberOfPorts(usize);

impl NumberOfPorts {
    /// The address of the register that holds the field.
    pub closed spec fn addr(self) -> usize {
        self.0
    }

    /// Where the field lies in that register.
    pub open spec fn field(self) -> BitField {
        BitField { addr: self.addr(), wide: false, offset: 24, bits: 8 }
    }

    /// Where the field lies for the block that begins at the address
    /// `block`.
    pub open spec fn field_at(block: usize) -> BitField {
        BitField { addr: (block + 0x4) as usize, wide: false, offset: 24, bits: 8 }
    }

    pub fn new(offset: MemoryMappedAddr) -> (register: Self)
        ensures
            register.addr() == offset.addr() + 0x4,
            register.field() == Self::field_at(offset.addr()),
    {
        Self(offset.addr() + 0x4)
    }

    /// The field as a value that performs the accesses.
    pub fn bit_field(&self) -> (field: BitField)
        ensures
            field == self.field(),
            field.wf(),
    {
        BitField::new(self.0, false, 24, 8)
    }

    /// Loads the register and returns the field.
    pub fn read_volatile<M: VolatileMemory>(&self, mem: &mut M) -> (value: u8)
        ensures
            read_step(old(mem).history(), final(mem).history(), self.field(), value as u64),
            value <= self.field().max_value(),
    {
        let field = self.bit_field();
        proof {
            lemma_low_mask_values();
        }
        field.read(mem) as u8
    }

    /// Stores `value` into the field and keeps the other bits of the
    /// register.
    pub fn write_volatile<M: VolatileMemory>(&self, mem: &mut M, value: u8)
        ensures
            write_step(old(mem).history(), final(mem).history(), self.field(), value as u64),
    {
        let field = self.bit_field();
        field.write(mem, value as u64);
    }
}

/// ERST Max: the binary logarithm of the largest number of event ring
/// segment table entries the controller supports.
#[derive(Debug, Clone, Copy)]
pub struct EventRingSegmentTableMax(usize);

impl EventRingSegmentTableMax {
    /// The address of the register that holds the field.
    pub closed spec fn addr(self) -> usize {
        self.0
    }

    /// Where the field lies in that register.
    pub open spec fn field(self) -> BitField {
        BitField { addr: self.addr(), wide: false, offset: 4, bits: 4 }
    }

    /// Where the field lies for the block that begins at the address
    /// `block`.
    pub open spec fn field_at(block: usize) -> BitField {
        BitField { addr: (block + 0x8) as usize, wide: false, offset: 4, bits: 4 }
    }

    pub fn new(offset: MemoryMappedAddr) -> (register: Self)
        ensures
            register.addr() == offset.addr() + 0x8,
            register.field() == Self::field_at(offset.addr()),
    {
        Self(offset.addr() + 0x8)
    }

    /// The field as a value that performs the accesses.
    pub fn bit_field(&self) -> (field: BitField)
        ensures
            field == self.field(),
            field.wf(),
    {
        BitField::new(self.0, false, 4, 4)
    }

    /// Loads the register and returns the field.
    pub fn read_volatile<M: VolatileMemory>(&self, mem: &mut M) -> (value: u8)
        ensures
            read_step(old(mem).history(), final(mem).history(), self.field(), value as u64),
            value <= self.field().max_value(),
    {
        let field = self.bit_field();
        proof {
            lemma_low_mask_values();
        }
        field.read(mem) as u8
    }

    /// Stores `value` into the field and keeps the other bits of the
    /// register.
    pub fn write_volatile<M: VolatileMemory>(&self, mem: &mut M, value: u8)
        ensures
            write_step(old(mem).history(), final(mem).history(), self.field(), value as u64),
    {
        let field = self.bit_field();
        field.write(mem, value as u64);
    }
}

/// DBOFF: the offset of the doorbell array from the base address, in units
/// of four bytes.
#[derive(Debug, Clone, Copy)]
pub struct DoorbellOffset(usize);

impl DoorbellOffset {
    /// The address of the register that holds the field.
    pub closed spec fn addr(self) -> usize {
        self.0
    }

    /// Where the field lies in that register.
    pub open spec fn field(self) -> BitField {
        BitField { addr: self.addr(), wide: false, offset: 2, bits: 30 }
    }

    /// Where the field lies for the block that begins at the address
    /// `block`.
    pub open spec fn field_at(block: usize) -> BitField {
        BitField { addr: (block + 0x14) as usize, wide: false, offset: 2, bits: 30 }
    }

    pub fn new(offset: MemoryMappedAddr) -> (register: Self)
        ensures
            register.addr() == offset.addr() + 0x14,
            register.field() == Self::field_at(offset.addr()),
    {
        Self(offset.addr() + 0x14)
    }

    /// The field as a value that performs the accesses.
    pub fn bit_field(&self) -> (field: BitField)
        ensures
            field == self.field(),
            field.wf(),
    {
        BitField::new(self.0, false, 2, 30)
    }

    /// Loads the register and returns the field.
    pub fn read_volatile<M: VolatileMemory>(&self, mem: &mut M) -> (value: u32)
        ensures
            read_step(old(mem).history(), final(mem).history(), self.field(), value as u64),
            value <= self.field().max_value(),
    {
        let field = self.bit_field();
        proof {
            lemma_low_mask_values();
        }
        field.read(mem) as u32
    }

    /// Stores `value` into the field and keeps the other bits of the
    /// register.
    pub fn write_volatile<M: VolatileMemory>(&self, mem: &mut M, value: u32)
        ensures
            write_step(old(mem).history(), final(mem).history(), self.field(), value as u64),
    {
        let field = self.bit_field();
        field.write(mem, value as u64);
    }
}

/// RTSOFF: the offset of the runtime registers from the base address, in
/// units of 32 bytes.
#[derive(Debug, Clone, Copy)]
pub struct RuntimeRegisterSpaceOffset(usize);

impl RuntimeRegisterSpaceOffset {
    /// The address of the register that holds the field.
    pub closed spec fn addr(self) -> usize {
        self.0
    }

    /// Where the field lies in that register.
    pub open spec fn field(self) -> BitField {
        BitField { addr: self.addr(), wide: false, offset: 5, bits: 27 }
    }

    /// Where the field lies for the block that begins at the address
    /// `block`.
    pub open spec fn field_at(block: usize) -> BitField {
        BitField { addr: (block + 0x18) as usize, wide: false, offset: 5, bits: 27 }
    }

    pub fn new(offset: MemoryMappedAddr) -> (register: Self)
        ensures
            register.addr() == offset.addr() + 0x18,
            register.field() == Self::field_at(offset.addr()),
    {
        Self(offset.addr() + 0x18)
    }

    /// The field as a value that performs the accesses.
    pub fn bit_field(&self) -> (field: BitField)
        ensures
            field == self.field(),
            field.wf(),
    {
        BitField::new(self.0, false, 5, 27)
    }

    /// Loads the register and returns the field.
    pub fn read_volatile<M: VolatileMemory>(&self, mem: &mut M) -> (value: u32)
        ensures
            read_step(old(mem).history(), final(mem).history(), self.field(), value as u64),
            value <= self.field().max_value(),
    {
        let field = self.bit_field();
        proof {
            lemma_low_mask_values();
        }
        field.read(mem) as u32
    }

    /// Stores `value` into the field and keeps the other bits of the
    /// register.
    pub fn write_volatile<M: VolatileMemory>(&self, mem: &mut M, value: u32)
        ensures
            write_step(old(mem).history(), final(mem).history(), self.field(), value as u64),
    {
        let field = self.bit_field();
        field.write(mem, value as u64);
    }
}

/// The error for a length or an offset that a register cannot hold.
pub open spec fn invalid_offset(value: usize) -> PciError {
    PciError::InvalidRegister(InvalidRegisterReason::InvalidOffset { value })
}

impl CapabilityLength {
    /// What [`CapabilityLength::new_check_length`] does on the accesses of
    /// `t` from index `at` on: one load of the length, which has to cover
    /// the capability registers.
    pub open spec fn new_check_length_run(t: Seq<Access>, at: int, mmio: usize)
        -> Option<(int, PciResult)> {
        let field = Self::field_at(mmio);
        if !field.loaded_at(t, at) {
            None
        } else if field.value_at(t, at) < 0x20 {
            Some((at + 1, Err(invalid_offset(field.value_at(t, at) as usize))))
        } else {
            Some((at + 1, Ok(())))
        }
    }

    /// Makes the field for the controller at `mmio` and checks that the
    /// length it holds is at least [`CAPABILITY_REGISTERS_SIZE`].
    pub fn new_check_length<M: VolatileMemory>(mem: &mut M, mmio: MemoryMappedAddr) -> (r:
        PciResult<Self>)
        ensures
            extends(old(mem).history(), final(mem).history()),
            match Self::new_check_length_run(
                final(mem).history(),
                old(mem).history().len() as int,
                mmio.addr(),
            ) {
                Some((end, Ok(_))) => end == final(mem).history().len() && (r matches Ok(register)
                    && register.field() == Self::field_at(mmio.addr())),
                Some((end, Err(e))) => end == final(mem).history().len() && r == Err::<Self, PciError>(
                    e,
                ),
                None => false,
            },
    {
        let register = Self::new(mmio);
        let length = register.read_volatile(mem);
        if length < 0x20 {
            Err(
                PciError::InvalidRegister(
                    InvalidRegisterReason::InvalidOffset { value: length as usize },
                ),
            )
        } else {
            Ok(register)
        }
    }
}

/// The number of segment table entries for the logarithm `exponent`.
pub open spec fn segment_table_entries(exponent: u64) -> u32 {
    1u32 << (exponent as u32)
}

impl EventRingSegmentTableMax {
    /// Loads the field and returns the largest number of event ring segment
    /// table entries the controller supports: two to the power of the
    /// field.
    pub fn max_entries<M: VolatileMemory>(&self, mem: &mut M) -> (max: u32)
        ensures
            extends(old(mem).history(), final(mem).history()),
            final(mem).history().len() == old(mem).history().len() + 1,
            self.field().loaded_at(final(mem).history(), old(mem).history().len() as int),
            max == segment_table_entries(
                self.field().value_at(final(mem).history(), old(mem).history().len() as int),
            ),
            1 <= max <= 0x8000,
    {
        let exponent = self.read_volatile(mem);
        proof {
            lemma_low_mask_values();
        }
        let shift: u32 = exponent as u32;
        assert(1 <= (1u32 << shift) <= 0x8000) by (bit_vector)
            requires
                shift <= 15,
        ;
        1u32 << shift
    }
}

impl DoorbellOffset {
    /// Loads the field and returns the offset of the doorbell array in
    /// bytes.
    pub fn read_offset<M: VolatileMemory>(&self, mem: &mut M) -> (bytes: u32)
        ensures
            extends(old(mem).history(), final(mem).history()),
            final(mem).history().len() == old(mem).history().len() + 1,
            self.field().loaded_at(final(mem).history(), old(mem).history().len() as int),
            bytes == 4 * self.field().value_at(
                final(mem).history(),
                old(mem).history().len() as int,
            ),
    {
        let units = self.read_volatile(mem);
        proof {
            lemma_low_mask_values();
        }
        units * 4
    }
}

impl RuntimeRegisterSpaceOffset {
    /// Loads the field and returns the offset of the runtime registers in
    /// bytes.
    pub fn read_offset<M: VolatileMemory>(&self, mem: &mut M) -> (bytes: u32)
        ensures
            extends(old(mem).history(), final(mem).history()),
            final(mem).history().len() == old(mem).history().len() + 1,
            self.field().loaded_at(final(mem).history(), old(mem).history().len() as int),
            bytes == 32 * self.field().value_at(
                final(mem).history(),
                old(mem).history().len() as int,
            ),
    {
        let units = self.read_volatile(mem);
        proof {
            lemma_low_mask_values();
        }
        units * 32
    }

    /// What [`RuntimeRegisterSpaceOffset::new_with_check_size`] does on the
    /// accesses of `t` from index `at` on: it loads the offset and the
    /// capability length; the runtime registers cannot begin inside the
    /// capability registers.
    pub open spec fn new_with_check_size_run(
        t: Seq<Access>,
        at: int,
        mmio: usize,
        cap_length: BitField,
    ) -> Option<(int, PciResult)> {
        let field = Self::field_at(mmio);
        if !(field.loaded_at(t, at) && cap_length.loaded_at(t, at + 1)) {
            None
        } else if 32 * field.value_at(t, at) < cap_length.value_at(t, at + 1) {
            Some((at + 2, Err(invalid_offset((32 * field.value_at(t, at)) as usize))))
        } else {
            Some((at + 2, Ok(())))
        }
    }

    /// Makes the field for the controller at `mmio` and checks that the
    /// offset it holds is not below the capability length.
    pub fn new_with_check_size<M: VolatileMemory>(
        mem: &mut M,
        mmio: MemoryMappedAddr,
        cap_length: &CapabilityLength,
    ) -> (r: PciResult<Self>)
        ensures
            extends(old(mem).history(), final(mem).history()),
            match Self::new_with_check_size_run(
                final(mem).history(),
                old(mem).history().len() as int,
                mmio.addr(),
                cap_length.field(),
            ) {
                Some((end, Ok(_))) => end == final(mem).history().len() && (r matches Ok(register)
                    && register.field() == Self::field_at(mmio.addr())),
                Some((end, Err(e))) => end == final(mem).history().len() && r == Err::<Self, PciError>(
                    e,
                ),
                None => false,
            },
    {
        let register = Self::new(mmio);
        let ghost t0 = mem.history();
        let bytes = register.read_offset(mem);
        let ghost t1 = mem.history();
        let length = cap_length.read_volatile(mem);
        proof {
            lemma_extends_transitive(t0, t1, mem.history());
        }
        if bytes < length as u32 {
            Err(PciError::InvalidRegister(InvalidRegisterReason::InvalidOffset { value: bytes as usize }))
        } else {
            Ok(register)
        }
    }
}

/// HCSPARAMS1: the structural parameters that count slots and ports.
#[derive(Debug, Clone, Copy)]
pub struct StructuralParameters1 {
    max_slots: NumberOfDeviceSlots,
    max_ports: NumberOfPorts,
}

impl StructuralParameters1 {
    pub closed spec fn spec_max_slots(&self) -> NumberOfDeviceSlots {
        self.max_slots
    }

    pub closed spec fn spec_max_ports(&self) -> NumberOfPorts {
        self.max_ports
    }

    pub fn new(mmio: MemoryMappedAddr) -> (register: Self)
        ensures
            register.max_slots().field() == NumberOfDeviceSlots::field_at(mmio.addr()),
            register.max_ports().field() == NumberOfPorts::field_at(mmio.addr()),
    {
        Self { max_slots: NumberOfDeviceSlots::new(mmio), max_ports: NumberOfPorts::new(mmio) }
    }

    #[verifier::when_used_as_spec(spec_max_slots)]
    pub fn max_slots(&self) -> (field: NumberOfDeviceSlots)
        ensures
            field == self.spec_max_slots(),
    {
        self.max_slots
    }

    #[verifier::when_used_as_spec(spec_max_ports)]
    pub fn max_ports(&self) -> (field: NumberOfPorts)
        ensures
            field == self.spec_max_ports(),
    {
        self.max_ports
    }
}

/// HCSPARAMS2: the structural parameters of the event ring.
#[derive(Debug, Clone, Copy)]
pub struct StructuralParameters2 {
    erst_max: EventRingSegmentTableMax,
}

impl StructuralParameters2 {
    pub closed spec fn spec_erst_max(&self) -> EventRingSegmentTableMax {
        self.erst_max
    }

    pub fn new(mmio: MemoryMappedAddr) -> (register: Self)
        ensures
            register.erst_max().field() == EventRingSegmentTableMax::field_at(mmio.addr()),
    {
        Self { erst_max: EventRingSegmentTableMax::new(mmio) }
    }

    #[verifier::when_used_as_spec(spec_erst_max)]
    pub fn erst_max(&self) -> (field: EventRingSegmentTableMax)
        ensures
            field == self.spec_erst_max(),
    {
        self.erst_max
    }
}

/// The capability registers, which describe the controller and say where
/// its other register blocks lie.
#[derive(Debug, Clone, Copy)]
pub struct CapabilityRegisters {
    cap_length: CapabilityLength,
    hci_version: HciVersion,
    hcs_params1: StructuralParameters1,
    hcs_params2: StructuralParameters2,
    db_off: DoorbellOffset,
    rts_off: RuntimeRegisterSpaceOffset,
}

impl CapabilityRegisters {
    pub closed spec fn spec_cap_length(&self) -> CapabilityLength {
        self.cap_length
    }

    pub closed spec fn spec_hci_version(&self) -> HciVersion {
        self.hci_version
    }

    pub closed spec fn spec_hcs_params1(&self) -> StructuralParameters1 {
        self.hcs_params1
    }

    pub closed spec fn spec_hcs_params2(&self) -> StructuralParameters2 {
        self.hcs_params2
    }

    pub closed spec fn spec_db_off(&self) -> DoorbellOffset {
        self.db_off
    }

    pub closed spec fn spec_rts_off(&self) -> RuntimeRegisterSpaceOffset {
        self.rts_off
    }

    /// The fields all belong to the controller at `mmio`.
    pub open spec fn lies_at(&self, mmio: usize) -> bool {
        &&& self.cap_length().field() == CapabilityLength::field_at(mmio)
        &&& self.hci_version().field() == HciVersion::field_at(mmio)
        &&& self.hcs_params1().max_slots().field() == NumberOfDeviceSlots::field_at(mmio)
        &&& self.hcs_params1().max_ports().field() == NumberOfPorts::field_at(mmio)
        &&& self.hcs_params2().erst_max().field() == EventRingSegmentTableMax::field_at(mmio)
        &&& self.db_off().field() == DoorbellOffset::field_at(mmio)
        &&& self.rts_off().field() == RuntimeRegisterSpaceOffset::field_at(mmio)
    }

    /// What [`CapabilityRegisters::new`] does on the accesses of `t` from
    /// index `at` on: it checks the capability length and then the runtime
    /// register space offset.
    pub open spec fn new_run(t: Seq<Access>, at: int, mmio: usize) -> Option<(int, PciResult)> {
        and_then_run(
            CapabilityLength::new_check_length_run(t, at, mmio),
            |a1: int|
                RuntimeRegisterSpaceOffset::new_with_check_size_run(
                    t,
                    a1,
                    mmio,
                    CapabilityLength::field_at(mmio),
                ),
        )
    }

    /// Makes the fields of the capability registers at `mmio`. Fails when
    /// the capability length or the runtime register space offset is out of
    /// range.
    pub fn new<M: VolatileMemory>(mem: &mut M, mmio: MemoryMappedAddr) -> (r: PciResult<Self>)
        ensures
            extends(old(mem).history(), final(mem).history()),
            match Self::new_run(final(mem).history(), old(mem).history().len() as int, mmio.addr()) {
                Some((end, Ok(_))) => end == final(mem).history().len() && (r matches Ok(registers)
                    && registers.lies_at(mmio.addr())),
                Some((end, Err(e))) => end == final(mem).history().len() && r == Err::<Self, PciError>(
                    e,
                ),
                None => false,
            },
    {
        let ghost t0 = mem.history();
        let cap_length = match CapabilityLength::new_check_length(mem, mmio) {
            Ok(cap_length) => cap_length,
            Err(e) => {
                return Err(e);
            },
        };
        let ghost t1 = mem.history();
        let rts_off = match RuntimeRegisterSpaceOffset::new_with_check_size(mem, mmio, &cap_length) {
            Ok(rts_off) => rts_off,
            Err(e) => {
                proof {
                    lemma_extends_transitive(t0, t1, mem.history());
                }
                return Err(e);
            },
        };
        proof {
            lemma_extends_transitive(t0, t1, mem.history());
        }
        Ok(
            Self {
                cap_length,
                hci_version: HciVersion::new(mmio),
                hcs_params1: StructuralParameters1::new(mmio),
                hcs_params2: StructuralParameters2::new(mmio),
                db_off: DoorbellOffset::new(mmio),
                rts_off,
            },
        )
    }

    #[verifier::when_used_as_spec(spec_cap_length)]
    pub fn cap_length(&self) -> (field: CapabilityLength)
        ensures
            field == self.spec_cap_length(),
    {
        self.cap_length
    }

    #[verifier::when_used_as_spec(spec_hci_version)]
    pub fn hci_version(&self) -> (field: HciVersion)
        ensures
            field == self.spec_hci_version(),
    {
        self.hci_version
    }

    #[verifier::when_used_as_spec(spec_hcs_params1)]
    pub fn hcs_params1(&self) -> (field: StructuralParameters1)
        ensures
            field == self.spec_hcs_params1(),
    {
        self.hcs_params1
    }

    #[verifier::when_used_as_spec(spec_hcs_params2)]
    pub fn hcs_params2(&self) -> (field: StructuralParameters2)
        ensures
            field == self.spec_hcs_params2(),
    {
        self.hcs_params2
    }

    #[verifier::when_used_as_spec(spec_db_off)]
    pub fn db_off(&self) -> (field: DoorbellOffset)
        ensures
            field == self.spec_db_off(),
    {
        self.db_off
    }

    #[verifier::when_used_as_spec(spec_rts_off)]
    pub fn rts_off(&self) -> (field: RuntimeRegisterSpaceOffset)
        ensures
            field == self.spec_rts_off(),
    {
        self.rts_off
    }
}

} // verus!
