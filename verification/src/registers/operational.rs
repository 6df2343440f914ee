use vstd::prelude::*;

use crate::error::InvalidRegisterReason;
use crate::error::PciError;
use crate::error::PciResult;
use crate::registers::capability::CapabilityLength;
use crate::registers::capability::MemoryMappedAddr;
use crate::registers::command_ring_control_register::CommandRingControlRegister;
use crate::registers::command_ring_control_register::CommandRingControlRegisterOffset;
use crate::registers::command_ring_control_register::WAIT_LIMIT;
use crate::volatile::and_then_run;
use crate::volatile::confirm_run;
use crate::volatile::confirmed_run;
use crate::volatile::extends;
use crate::volatile::lemma_confirm_bounds;
use crate::volatile::lemma_confirm_stable;
use crate::volatile::lemma_extends_transitive;
use crate::volatile::wait_update_for;
use crate::volatile::extends_by;
use crate::volatile::flag_value;
use crate::volatile::lemma_low_mask_values;
use crate::volatile::read_step;
use crate::volatile::write_step;
use crate::volatile::Access;
use crate::volatile::BitField;
use crate::volatile::VolatileMemory;

verus! {

/// The number of bytes the operational registers take up, the port
/// register sets of all 255 ports included.
pub const OPERATIONAL_REGISTERS_SIZE: usize = 0x1400;

/// The address at which the operational registers begin: the base address
/// plus the capability length.
#[derive(Debug, Clone, Copy)]
pub struct OperationalRegistersOffset(usize);

impl OperationalRegistersOffset {
    pub closed spec fn spec_offset(&self) -> usize {
        self.0
    }

    /// The whole block lies inside the address space.
    #[verifier::type_invariant]
    pub open spec fn in_range(&self) -> bool {
        self.spec_offset() + 0x1400 <= usize::MAX
    }

    #[verifier::when_used_as_spec(spec_offset)]
    pub fn offset(&self) -> (value: usize)
        ensures
            value == self.spec_offset(),
            value + 0x1400 <= usize::MAX,
    {
        proof {
            use_type_invariant(self);
        }
        self.0
    }

    /// What [`OperationalRegistersOffset::new`] does on the accesses of `t`
    /// from index `at` on: it loads the capability length and adds it to the
    /// base address.
    pub open spec fn new_run(
        t: Seq<Access>,
        at: int,
        mmio: usize,
        field: BitField,
    ) -> Option<(int, PciResult<usize>)> {
        if !field.loaded_at(t, at) {
            None
        } else {
            let length = field.value_at(t, at);
            if mmio + length + 0x1400 <= usize::MAX {
                Some((at + 1, Ok((mmio + length) as usize)))
            } else {
                Some(
                    (
                        at + 1,
                        Err(
                            PciError::InvalidRegister(
                                InvalidRegisterReason::InvalidOffset { value: length as usize },
                            ),
                        ),
                    ),
                )
            }
        }
    }

    /// Reads the capability length and places the operational registers
    /// that many bytes above the base address. Fails when the block would
    /// not fit into the address space.
    pub fn new<M: VolatileMemory>(
        mem: &mut M,
        mmio: MemoryMappedAddr,
        cap_length: &CapabilityLength,
    ) -> (r: PciResult<Self>)
        ensures
            extends_by(
                old(mem).history(),
                final(mem).history(),
                Self::new_run(
                    final(mem).history(),
                    old(mem).history().len() as int,
                    mmio.addr(),
                    cap_length.field(),
                ),
            ),
            match Self::new_run(
                final(mem).history(),
                old(mem).history().len() as int,
                mmio.addr(),
                cap_length.field(),
            ) {
                Some((_, Ok(offset))) => r matches Ok(o) && o.offset() == offset,
                Some((_, Err(e))) => r == Err::<Self, PciError>(e),
                None => false,
            },
    {
        let length = cap_length.read_volatile(mem) as usize;
        let base = mmio.addr();
        if length <= usize::MAX - 0x1400 && base <= usize::MAX - 0x1400 - length {
            Ok(Self(base + length))
        } else {
            Err(PciError::InvalidRegister(InvalidRegisterReason::InvalidOffset { value: length }))
        }
    }
}

/// Run/Stop: set to let the controller run, cleared to halt it.
#[derive(Debug, Clone, Copy)]
pub struct RunStop(usize);

impl RunStop {
    /// The address of the register that holds the field.
    pub closed spec fn addr(self) -> usize {
        self.0
    }

    /// Where the field lies in that register.
    pub open spec fn field(self) -> BitField {
        BitField { addr: self.addr(), wide: false, offset: 0, bits: 1 }
    }

    /// Where the field lies for the block that begins at the address
    /// `block`.
    pub open spec fn field_at(block: usize) -> BitField {
        BitField { addr: block, wide: false, offset: 0, bits: 1 }
    }

    pub fn new(offset: OperationalRegistersOffset) -> (register: Self)
        ensures
            register.addr() == offset.offset(),
            register.field() == Self::field_at(offset.offset()),
    {
        Self(offset.offset())
    }

    /// The field as a value that performs the accesses.
    pub fn bit_field(&self) -> (field: BitField)
        ensures
            field == self.field(),
            field.wf(),
    {
        BitField::new(self.0, false, 0, 1)
    }

    /// Loads the register and returns whether the flag is set.
    pub fn read_flag_volatile<M: VolatileMemory>(&self, mem: &mut M) -> (flag: bool)
        ensures
            read_step(old(mem).history(), final(mem).history(), self.field(), flag_value(flag)),
    {
        let field = self.bit_field();
        proof {
            lemma_low_mask_values();
        }
        field.read(mem) != 0
    }

    /// Sets or clears the flag and keeps the other bits of the register.
    pub fn write_flag_volatile<M: VolatileMemory>(&self, mem: &mut M, flag: bool)
        ensures
            write_step(old(mem).history(), final(mem).history(), self.field(), flag_value(flag)),
    {
        let field = self.bit_field();
        field.write(
            mem,
            if flag {
                1
            } else {
                0
            },
        );
    }
}

/// HCRST: set to reset the controller; the controller clears it when the
/// reset is done.
#[derive(Debug, Clone, Copy)]
pub struct HostControllerReset(usize);

impl HostControllerReset {
    /// The address of the register that holds the field.
    pub closed spec fn addr(self) -> usize {
        self.0
    }

    /// Where the field lies in that register.
    pub open spec fn field(self) -> BitField {
        BitField { addr: self.addr(), wide: false, offset: 1, bits: 1 }
    }

    /// Where the field lies for the block that begins at the address
    /// `block`.
    pub open spec fn field_at(block: usize) -> BitField {
        BitField { addr: block, wide: false, offset: 1, bits: 1 }
    }

    pub fn new(offset: OperationalRegistersOffset) -> (register: Self)
        ensures
            register.addr() == offset.offset(),
            register.field() == Self::field_at(offset.offset()),
    {
        Self(offset.offset())
    }

    /// The field as a value that performs the accesses.
    pub fn bit_field(&self) -> (field: BitField)
        ensures
            field == self.field(),
            field.wf(),
    {
        BitField::new(self.0, false, 1, 1)
    }

    /// Loads the register and returns whether the flag is set.
    pub fn read_flag_volatile<M: VolatileMemory>(&self, mem: &mut M) -> (flag: bool)
        ensures
            read_step(old(mem).history(), final(mem).history(), self.field(), flag_value(flag)),
    {
        let field = self.bit_field();
        proof {
            lemma_low_mask_values();
        }
        field.read(mem) != 0
    }

    /// Sets or clears the flag and keeps the other bits of the register.
    pub fn write_flag_volatile<M: VolatileMemory>(&self, mem: &mut M, flag: bool)
        ensures
            write_step(old(mem).history(), final(mem).history(), self.field(), flag_value(flag)),
    {
        let field = self.bit_field();
        field.write(
            mem,
            if flag {
                1
            } else {
                0
            },
        );
    }
}

/// INTE: set to let the controller raise interrupts.
#[derive(Debug, Clone, Copy)]
pub struct InterrupterEnable(usize);

impl InterrupterEnable {
    /// The address of the register that holds the field.
    pub closed spec fn addr(self) -> usize {
        self.0
    }

    /// Where the field lies in that register.
    pub open spec fn field(self) -> BitField {
        BitField { addr: self.addr(), wide: false, offset: 2, bits: 1 }
    }

    /// Where the field lies for the block that begins at the address
    /// `block`.
    pub open spec fn field_at(block: usize) -> BitField {
        BitField { addr: block, wide: false, offset: 2, bits: 1 }
    }

    pub fn new(offset: OperationalRegistersOffset) -> (register: Self)
        ensures
            register.addr() == offset.offset(),
            register.field() == Self::field_at(offset.offset()),
    {
        Self(offset.offset())
    }

    /// The field as a value that performs the accesses.
    pub fn bit_field(&self) -> (field: BitField)
        ensures
            field == self.field(),
            field.wf(),
    {
        BitField::new(self.0, false, 2, 1)
    }

    /// Loads the register and returns whether the flag is set.
    pub fn read_flag_volatile<M: VolatileMemory>(&self, mem: &mut M) -> (flag: bool)
        ensures
            read_step(old(mem).history(), final(mem).history(), self.field(), flag_value(flag)),
    {
        let field = self.bit_field();
        proof {
            lemma_low_mask_values();
        }
        field.read(mem) != 0
    }

    /// Sets or clears the flag and keeps the other bits of the register.
    pub fn write_flag_volatile<M: VolatileMemory>(&self, mem: &mut M, flag: bool)
        ensures
            write_step(old(mem).history(), final(mem).history(), self.field(), flag_value(flag)),
    {
        let field = self.bit_field();
        field.write(
            mem,
            if flag {
                1
            } else {
                0
            },
        );
    }
}

/// HCH: set by the controller while it is halted.
#[derive(Debug, Clone, Copy)]
pub struct HostControllerHalted(usize);

impl HostControllerHalted {
    /// The address of the register that holds the field.
    pub closed spec fn addr(self) -> usize {
        self.0
    }

    /// Where the field lies in that register.
    pub open spec fn field(self) -> BitField {
        BitField { addr: self.addr(), wide: false, offset: 0, bits: 1 }
    }

    /// Where the field lies for the block that begins at the address
    /// `block`.
    pub open spec fn field_at(block: usize) -> BitField {
        BitField { addr: (block + 0x4) as usize, wide: false, offset: 0, bits: 1 }
    }

    pub fn new(offset: OperationalRegistersOffset) -> (register: Self)
        ensures
            register.addr() == offset.offset() + 0x4,
            register.field() == Self::field_at(offset.offset()),
    {
        Self(offset.offset() + 0x4)
    }

    /// The field as a value that performs the accesses.
    pub fn bit_field(&self) -> (field: BitField)
        ensures
            field == self.field(),
            field.wf(),
    {
        BitField::new(self.0, false, 0, 1)
    }

    /// Loads the register and returns whether the flag is set.
    pub fn read_flag_volatile<M: VolatileMemory>(&self, mem: &mut M) -> (flag: bool)
        ensures
            read_step(old(mem).history(), final(mem).history(), self.field(), flag_value(flag)),
    {
        let field = self.bit_field();
        proof {
            lemma_low_mask_values();
        }
        field.read(mem) != 0
    }

    /// Sets or clears the flag and keeps the other bits of the register.
    pub fn write_flag_volatile<M: VolatileMemory>(&self, mem: &mut M, flag: bool)
        ensures
            write_step(old(mem).history(), final(mem).history(), self.field(), flag_value(flag)),
    {
        let field = self.bit_field();
        field.write(
            mem,
            if flag {
                1
            } else {
                0
            },
        );
    }
}

/// CNR: set by the controller until it can take register writes.
#[derive(Debug, Clone, Copy)]
pub struct ControllerNotReady(usize);

impl ControllerNotReady {
    /// The address of the register that holds the field.
    pub closed spec fn addr(self) -> usize {
        self.0
    }

    /// Where the field lies in that register.
    pub open spec fn field(self) -> BitField {
        BitField { addr: self.addr(), wide: false, offset: 11, bits: 1 }
    }

    /// Where the field lies for the block that begins at the address
    /// `block`.
    pub open spec fn field_at(block: usize) -> BitField {
        BitField { addr: (block + 0x4) as usize, wide: false, offset: 11, bits: 1 }
    }

    pub fn new(offset: OperationalRegistersOffset) -> (register: Self)
        ensures
            register.addr() == offset.offset() + 0x4,
            register.field() == Self::field_at(offset.offset()),
    {
        Self(offset.offset() + 0x4)
    }

    /// The field as a value that performs the accesses.
    pub fn bit_field(&self) -> (field: BitField)
        ensures
            field == self.field(),
            field.wf(),
    {
        BitField::new(self.0, false, 11, 1)
    }

    /// Loads the register and returns whether the flag is set.
    pub fn read_flag_volatile<M: VolatileMemory>(&self, mem: &mut M) -> (flag: bool)
        ensures
            read_step(old(mem).history(), final(mem).history(), self.field(), flag_value(flag)),
    {
        let field = self.bit_field();
        proof {
            lemma_low_mask_values();
        }
        field.read(mem) != 0
    }

    /// Sets or clears the flag and keeps the other bits of the register.
    pub fn write_flag_volatile<M: VolatileMemory>(&self, mem: &mut M, flag: bool)
        ensures
            write_step(old(mem).history(), final(mem).history(), self.field(), flag_value(flag)),
    {
        let field = self.bit_field();
        field.write(
            mem,
            if flag {
                1
            } else {
                0
            },
        );
    }
}

/// DCBAAP: the address of the device context base address array.
#[derive(Debug, Clone, Copy)]
pub struct DeviceContextBaseAddressArrayPointer(usize);

impl DeviceContextBaseAddressArrayPointer {
    /// The address of the register that holds the field.
    pub closed spec fn addr(self) -> usize {
        self.0
    }

    /// Where the field lies in that register.
    pub open spec fn field(self) -> BitField {
        BitField { addr: self.addr(), wide: true, offset: 0, bits: 64 }
    }

    /// Where the field lies for the block that begins at the address
    /// `block`.
    pub open spec fn field_at(block: usize) -> BitField {
        BitField { addr: (block + 0x30) as usize, wide: true, offset: 0, bits: 64 }
    }

    pub fn new(offset: OperationalRegistersOffset) -> (register: Self)
        ensures
            register.addr() == offset.offset() + 0x30,
            register.field() == Self::field_at(offset.offset()),
    {
        Self(offset.offset() + 0x30)
    }

    /// The field as a value that performs the accesses.
    pub fn bit_field(&self) -> (field: BitField)
        ensures
            field == self.field(),
            field.wf(),
    {
        BitField::new(self.0, true, 0, 64)
    }

    /// Loads the register and returns the field.
    pub fn read_volatile<M: VolatileMemory>(&self, mem: &mut M) -> (value: u64)
        ensures
            read_step(old(mem).history(), final(mem).history(), self.field(), value),
            value <= self.field().max_value(),
    {
        let field = self.bit_field();
        proof {
            lemma_low_mask_values();
        }
        field.read(mem)
    }

    /// Stores `value` into the field and keeps the other bits of the
    /// register.
    pub fn write_volatile<M: VolatileMemory>(&self, mem: &mut M, value: u64)
        ensures
            write_step(old(mem).history(), final(mem).history(), self.field(), value),
    {
        let field = self.bit_field();
        field.write(mem, value);
    }
}

/// MaxSlotsEn: the number of device slots the driver enables.
#[derive(Debug, Clone, Copy)]
pub struct MaxDeviceSlotsEnabled(usize);

impl MaxDeviceSlotsEnabled {
    /// The address of the register that holds the field.
    pub closed spec fn addr(self) -> usize {
        self.0
    }

    /// Where the field lies in that register.
    pub open spec fn field(self) -> BitField {
        BitField { addr: self.addr(), wide: false, offset: 0, bits: 8 }
    }

    /// Where the field lies for the block that begins at the address
    /// `block`.
    pub open spec fn field_at(block: usize) -> BitField {
        BitField { addr: (block + 0x38) as usize, wide: false, offset: 0, bits: 8 }
    }

    pub fn new(offset: OperationalRegistersOffset) -> (register: Self)
        ensures
            register.addr() == offset.offset() + 0x38,
            register.field() == Self::field_at(offset.offset()),
    {
        Self(offset.offset() + 0x38)
    }

    /// The field as a value that performs the accesses.
    pub fn bit_field(&self) -> (field: BitField)
        ensures
            field == self.field(),
            field.wf(),
    {
        BitField::new(self.0, false, 0, 8)
    }

    /// Loads the register and returns the field.
    pub fn read_volatile<M: VolatileMemory>(&self, mem: &mut M) -> (value: u8)
        ensures
            read_step(old(mem).history(), final(mem).history(), self.field(), value as u64),
            value <= self.field().max_value(),
    {
        let field = self.bit_field();
        proof {
            lemma_low_mask_values();
        }
        field.read(mem) as u8
    }

    /// Stores `value` into the field and keeps the other bits of the
    /// register.
    pub fn write_volatile<M: VolatileMemory>(&self, mem: &mut M, value: u8)
        ensures
            write_step(old(mem).history(), final(mem).history(), self.field(), value as u64),
    {
        let field = self.bit_field();
        field.write(mem, value as u64);
    }
}

/// The operational registers, through which the driver runs the controller.
#[derive(Debug, Clone, Copy)]
pub struct OperationalRegisters {
    pub run_stop: RunStop,
    pub hcrst: HostControllerReset,
    pub inte: InterrupterEnable,
    pub hc_halted: HostControllerHalted,
    pub cnr: ControllerNotReady,
    pub crcr: CommandRingControlRegister,
    pub dcbaap: DeviceContextBaseAddressArrayPointer,
    pub max_slots_en: MaxDeviceSlotsEnabled,
}

impl OperationalRegisters {
    /// The fields all belong to the block that begins at `offset`.
    pub open spec fn lies_at(self, block: usize) -> bool {
        &&& self.run_stop.field() == RunStop::field_at(block)
        &&& self.hcrst.field() == HostControllerReset::field_at(block)
        &&& self.inte.field() == InterrupterEnable::field_at(block)
        &&& self.hc_halted.field() == HostControllerHalted::field_at(block)
        &&& self.cnr.field() == ControllerNotReady::field_at(block)
        &&& self.crcr.lies_at((block + 0x18) as usize)
        &&& self.dcbaap.field() == DeviceContextBaseAddressArrayPointer::field_at(block)
        &&& self.max_slots_en.field() == MaxDeviceSlotsEnabled::field_at(block)
    }

    /// What [`OperationalRegisters::new`] does on the accesses of `t` from
    /// index `at` on, for the block at the address `block`: the checks of
    /// the command ring control register.
    pub open spec fn new_run(t: Seq<Access>, at: int, block: usize) -> Option<(int, PciResult)> {
        CommandRingControlRegister::new_run(t, at, (block + 0x18) as usize)
    }

    /// Makes the fields of the operational registers at `offset`. Fails
    /// where [`CommandRingControlRegister::new`] does.
    pub fn new<M: VolatileMemory>(mem: &mut M, offset: OperationalRegistersOffset) -> (r:
        PciResult<Self>)
        ensures
            extends(old(mem).history(), final(mem).history()),
            match Self::new_run(
                final(mem).history(),
                old(mem).history().len() as int,
                offset.offset(),
            ) {
                Some((end, Ok(_))) => end == final(mem).history().len() && (r matches Ok(registers)
                    && registers.lies_at(offset.offset())),
                Some((end, Err(e))) => end == final(mem).history().len() && r == Err::<Self, PciError>(
                    e,
                ),
                None => false,
            },
    {
        let crcr_offset = CommandRingControlRegisterOffset::new(offset);
        let crcr = match CommandRingControlRegister::new(mem, crcr_offset) {
            Ok(crcr) => crcr,
            Err(e) => {
                return Err(e);
            },
        };
        Ok(
            Self {
                run_stop: RunStop::new(offset),
                hcrst: HostControllerReset::new(offset),
                inte: InterrupterEnable::new(offset),
                hc_halted: HostControllerHalted::new(offset),
                cnr: ControllerNotReady::new(offset),
                crcr,
                dcbaap: DeviceContextBaseAddressArrayPointer::new(offset),
                max_slots_en: MaxDeviceSlotsEnabled::new(offset),
            },
        )
    }

    /// What halting the controller does on the accesses of `t` from index
    /// `at` on: interrupts are switched off, the run flag is cleared unless
    /// the controller is halted already, and the halted flag is awaited.
    pub open spec fn halt_run(self, t: Seq<Access>, at: int) -> Option<(int, PciResult)> {
        if !(self.inte.field().stored_at(t, at, 0) && self.hc_halted.field().loaded_at(t, at + 2)) {
            None
        } else if self.hc_halted.field().value_at(t, at + 2) != 0 {
            confirmed_run(
                confirm_run(t, at + 3, self.hc_halted.field(), 1, WAIT_LIMIT as nat),
                1,
                WAIT_LIMIT,
            )
        } else if !self.run_stop.field().stored_at(t, at + 3, 0) {
            None
        } else {
            confirmed_run(
                confirm_run(t, at + 5, self.hc_halted.field(), 1, WAIT_LIMIT as nat),
                1,
                WAIT_LIMIT,
            )
        }
    }

    /// What [`OperationalRegisters::reset_host_controller`] does on the
    /// accesses of `t` from index `at` on: the controller is halted, the
    /// reset flag is set and awaited to clear, and the not-ready flag is
    /// awaited to clear.
    pub open spec fn reset_host_controller_run(self, t: Seq<Access>, at: int) -> Option<
        (int, PciResult),
    > {
        and_then_run(
            self.halt_run(t, at),
            |a1: int|
                if !self.hcrst.field().stored_at(t, a1, 1) {
                    None
                } else {
                    and_then_run(
                        confirmed_run(
                            confirm_run(t, a1 + 2, self.hcrst.field(), 0, WAIT_LIMIT as nat),
                            0,
                            WAIT_LIMIT,
                        ),
                        |a2: int|
                            confirmed_run(
                                confirm_run(t, a2, self.cnr.field(), 0, WAIT_LIMIT as nat),
                                0,
                                WAIT_LIMIT,
                            ),
                    )
                },
        )
    }

    fn halt<M: VolatileMemory>(&self, mem: &mut M) -> (r: PciResult)
        ensures
            extends(old(mem).history(), final(mem).history()),
            self.halt_run(final(mem).history(), old(mem).history().len() as int) == Some(
                (final(mem).history().len() as int, r),
            ),
    {
        let ghost t0 = mem.history();
        self.inte.write_flag_volatile(mem, false);
        let ghost t1 = mem.history();
        let halted = self.hc_halted.read_flag_volatile(mem);
        let ghost t2 = mem.history();
        proof {
            lemma_extends_transitive(t0, t1, t2);
        }
        if !halted {
            self.run_stop.write_flag_volatile(mem, false);
        }
        let ghost t3 = mem.history();
        proof {
            lemma_extends_transitive(t0, t2, t3);
        }
        let field = self.hc_halted.bit_field();
        let r = wait_update_for(mem, WAIT_LIMIT, 1, &field);
        proof {
            lemma_extends_transitive(t0, t3, mem.history());
        }
        r
    }

    /// Halts and resets the controller and waits until it is ready again.
    /// Each wait gives up with a timeout after [`WAIT_LIMIT`] loads, and
    /// nothing more is stored after a wait that gave up.
    pub fn reset_host_controller<M: VolatileMemory>(&self, mem: &mut M) -> (r: PciResult)
        ensures
            extends(old(mem).history(), final(mem).history()),
            self.reset_host_controller_run(final(mem).history(), old(mem).history().len() as int)
                == Some((final(mem).history().len() as int, r)),
    {
        let ghost t0 = mem.history();
        let ghost at = t0.len() as int;
        match self.halt(mem) {
            Ok(_) => {},
            Err(e) => {
                return Err(e);
            },
        }
        let ghost t1 = mem.history();
        self.hcrst.write_flag_volatile(mem, true);
        let ghost t2 = mem.history();
        let reset = self.hcrst.bit_field();
        let waited = wait_update_for(mem, WAIT_LIMIT, 0, &reset);
        let ghost t3 = mem.history();
        proof {
            lemma_extends_transitive(t0, t1, t2);
            lemma_extends_transitive(t1, t2, t3);
            lemma_extends_transitive(t0, t2, t3);
            self.lemma_halt_stable(t1, t3, at);
        }
        match waited {
            Ok(_) => {},
            Err(e) => {
                return Err(e);
            },
        }
        let not_ready = self.cnr.bit_field();
        let r = wait_update_for(mem, WAIT_LIMIT, 0, &not_ready);
        proof {
            let t4 = mem.history();
            lemma_extends_transitive(t0, t3, t4);
            lemma_extends_transitive(t1, t3, t4);
            self.lemma_halt_stable(t1, t4, at);
            lemma_confirm_stable(t3, t4, t2.len() as int, reset, 0, WAIT_LIMIT as nat);
        }
        r
    }

    proof fn lemma_halt_stable(self, t: Seq<Access>, later: Seq<Access>, at: int)
        requires
            extends(t, later),
            0 <= at,
            self.halt_run(t, at) matches Some((end, _)) && end <= t.len(),
        ensures
            self.halt_run(later, at) == self.halt_run(t, at),
    {
        let field = self.hc_halted.field();
        if field.value_at(t, at + 2) != 0 {
            lemma_confirm_stable(t, later, at + 3, field, 1, WAIT_LIMIT as nat);
        } else {
            lemma_confirm_stable(t, later, at + 5, field, 1, WAIT_LIMIT as nat);
        }
    }

    /// What a reset did stays what it did when more accesses follow.
    pub proof fn lemma_reset_host_controller_stable(
        self,
        t: Seq<Access>,
        later: Seq<Access>,
        at: int,
    )
        requires
            extends(t, later),
            0 <= at,
            self.reset_host_controller_run(t, at) matches Some((end, _)) && end <= t.len(),
        ensures
            self.reset_host_controller_run(later, at) == self.reset_host_controller_run(t, at),
    {
        let halted = self.halt_run(t, at);
        if halted is Some {
            let a1 = halted->Some_0.0;
            if halted->Some_0.1 is Ok {
                assert(self.hcrst.field().stored_at(t, a1, 1));
                let reset = confirm_run(t, a1 + 2, self.hcrst.field(), 0, WAIT_LIMIT as nat);
                assert(reset is Some);
                let a2 = reset->Some_0.0;
                if reset->Some_0.1 {
                    let ready = confirm_run(t, a2, self.cnr.field(), 0, WAIT_LIMIT as nat);
                    assert(ready is Some);
                    lemma_confirm_bounds(t, a2, self.cnr.field(), 0, WAIT_LIMIT as nat);
                    lemma_confirm_stable(t, later, a2, self.cnr.field(), 0, WAIT_LIMIT as nat);
                }
                lemma_confirm_bounds(t, a1 + 2, self.hcrst.field(), 0, WAIT_LIMIT as nat);
                lemma_confirm_stable(t, later, a1 + 2, self.hcrst.field(), 0, WAIT_LIMIT as nat);
                self.lemma_halt_bounds(t, at);
            }
            self.lemma_halt_bounds(t, at);
            self.lemma_halt_stable(t, later, at);
        }
    }

    proof fn lemma_halt_bounds(self, t: Seq<Access>, at: int)
        requires
            0 <= at,
            self.halt_run(t, at) is Some,
        ensures
            at <= self.halt_run(t, at)->Some_0.0,
    {
        let field = self.hc_halted.field();
        if field.value_at(t, at + 2) != 0 {
            lemma_confirm_bounds(t, at + 3, field, 1, WAIT_LIMIT as nat);
        } else {
            lemma_confirm_bounds(t, at + 5, field, 1, WAIT_LIMIT as nat);
        }
    }

    /// Sets the run flag, which lets the controller run.
    pub fn run_host_controller<M: VolatileMemory>(&self, mem: &mut M)
        ensures
            write_step(old(mem).history(), final(mem).history(), self.run_stop.field(), 1),
    {
        self.run_stop.write_flag_volatile(mem, true);
    }
}

} // verus!
