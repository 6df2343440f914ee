use vstd::prelude::*;

use crate::volatile::extends;
use crate::volatile::lemma_extends_transitive;
use crate::volatile::lemma_low_mask_values;
use crate::volatile::read_step;
use crate::volatile::write_step;
use crate::volatile::Access;
use crate::volatile::BitField;
use crate::volatile::VolatileMemory;

verus! {

/// The address at which the registers of the local interrupt controller
/// lie unless they were moved.
pub const LOCAL_APIC_BASE: usize = 0xfee0_0000;

/// The interrupt vector of the timer.
pub const VECTOR_APIC_TIMER: u32 = 0x41;

/// The timer mode in which the timer starts over when it has run down.
pub const TIMER_MODE_PERIODIC: u32 = 1;

/// The address at which the registers of the local interrupt controller
/// begin.
#[derive(Debug, Clone, Copy)]
pub struct LvtTimerAddr(usize);

impl LvtTimerAddr {
    pub closed spec fn spec_address(&self) -> usize {
        self.0
    }

    /// The whole block lies inside the address space.
    #[verifier::type_invariant]
    pub open spec fn in_range(&self) -> bool {
        self.spec_address() + 0x400 <= usize::MAX
    }

    #[verifier::when_used_as_spec(spec_address)]
    pub fn address(&self) -> (value: usize)
        ensures
            value == self.spec_address(),
            value + 0x400 <= usize::MAX,
    {
        proof {
            use_type_invariant(self);
        }
        self.0
    }

    /// The block at `address`, if it lies inside the address space.
    pub fn new(address: usize) -> (r: Option<Self>)
        ensures
            address + 0x400 <= usize::MAX ==> (r matches Some(block) && block.address() == address),
            address + 0x400 > usize::MAX ==> r is None,
    {
        if address <= usize::MAX - 0x400 {
            Some(Self(address))
        } else {
            None
        }
    }
}

impl Default for LvtTimerAddr {
    /// The block at [`LOCAL_APIC_BASE`].
    fn default() -> (block: Self)
        ensures
            block.address() == LOCAL_APIC_BASE,
    {
        Self(LOCAL_APIC_BASE)
    }
}

/// The vector of the interrupt that the timer raises.
#[derive(Debug, Clone, Copy)]
pub struct InterruptIdNumber(usize);

impl InterruptIdNumber {
    /// The address of the register that holds the field.
    pub closed spec fn addr(self) -> usize {
        self.0
    }

    /// Where the field lies in that register.
    pub open spec fn field(self) -> BitField {
        BitField { addr: self.addr(), wide: false, offset: 0, bits: 8 }
    }

    /// Where the field lies for the block that begins at the address
    /// `block`.
    pub open spec fn field_at(block: usize) -> BitField {
        BitField { addr: (block + 0x320) as usize, wide: false, offset: 0, bits: 8 }
    }

    pub fn new(offset: LvtTimerAddr) -> (register: Self)
        ensures
            register.addr() == offset.address() + 0x320,
            register.field() == Self::field_at(offset.address()),
    {
        Self(offset.address() + 0x320)
    }

    /// The field as a value that performs the accesses.
    pub fn bit_field(&self) -> (field: BitField)
        ensures
            field == self.field(),
            field.wf(),
    {
        BitField::new(self.0, false, 0, 8)
    }

    /// Loads the register and returns the field.
    pub fn read_volatile<M: VolatileMemory>(&self, mem: &mut M) -> (value: u32)
        ensures
            read_step(old(mem).history(), final(mem).history(), self.field(), value as u64),
            value <= self.field().max_value(),
    {
        let field = self.bit_field();
        proof {
            lemma_low_mask_values();
        }
        field.read(mem) as u32
    }

    /// Stores `value` into the field and keeps the other bits of the
    /// register.
    pub fn write_volatile<M: VolatileMemory>(&self, mem: &mut M, value: u32)
        ensures
            write_step(old(mem).history(), final(mem).history(), self.field(), value as u64),
    {
        let field = self.bit_field();
        field.write(mem, value as u64);
    }
}

/// Set to keep the timer from raising interrupts.
#[derive(Debug, Clone, Copy)]
pub struct Mask(usize);

impl Mask {
    /// The address of the register that holds the field.
    pub closed spec fn addr(self) -> usize {
        self.0
    }

    /// Where the field lies in that register.
    pub open spec fn field(self) -> BitField {
        BitField { addr: self.addr(), wide: false, offset: 16, bits: 1 }
    }

    /// Where the field lies for the block that begins at the address
    /// `block`.
    pub open spec fn field_at(block: usize) -> BitField {
        BitField { addr: (block + 0x320) as usize, wide: false, offset: 16, bits: 1 }
    }

    pub fn new(offset: LvtTimerAddr) -> (register: Self)
        ensures
            register.addr() == offset.address() + 0x320,
            register.field() == Self::field_at(offset.address()),
    {
        Self(offset.address() + 0x320)
    }

    /// The field as a value that performs the accesses.
    pub fn bit_field(&self) -> (field: BitField)
        ensures
            field == self.field(),
            field.wf(),
    {
        BitField::new(self.0, false, 16, 1)
    }

    /// Loads the register and returns the field.
    pub fn read_volatile<M: VolatileMemory>(&self, mem: &mut M) -> (value: u32)
        ensures
            read_step(old(mem).history(), final(mem).history(), self.field(), value as u64),
            value <= self.field().max_value(),
    {
        let field = self.bit_field();
        proof {
            lemma_low_mask_values();
        }
        field.read(mem) as u32
    }

    /// Stores `value` into the field and keeps the other bits of the
    /// register.
    pub fn write_volatile<M: VolatileMemory>(&self, mem: &mut M, value: u32)
        ensures
            write_step(old(mem).history(), final(mem).history(), self.field(), value as u64),
    {
        let field = self.bit_field();
        field.write(mem, value as u64);
    }
}

/// How the timer goes on when it has run down.
#[derive(Debug, Clone, Copy)]
pub struct TimerMode(usize);

impl TimerMode {
    /// The address of the register that holds the field.
    pub closed spec fn addr(self) -> usize {
        self.0
    }

    /// Where the field lies in that register.
    pub open spec fn field(self) -> BitField {
        BitField { addr: self.addr(), wide: false, offset: 17, bits: 2 }
    }

    /// Where the field lies for the block that begins at the address
    /// `block`.
    pub open spec fn field_at(block: usize) -> BitField {
        BitField { addr: (block + 0x320) as usize, wide: false, offset: 17, bits: 2 }
    }

    pub fn new(offset: LvtTimerAddr) -> (register: Self)
        ensures
            register.addr() == offset.address() + 0x320,
            register.field() == Self::field_at(offset.address()),
    {
        Self(offset.address() + 0x320)
    }

    /// The field as a value that performs the accesses.
    pub fn bit_field(&self) -> (field: BitField)
        ensures
            field == self.field(),
            field.wf(),
    {
        BitField::new(self.0, false, 17, 2)
    }

    /// Loads the register and returns the field.
    pub fn read_volatile<M: VolatileMemory>(&self, mem: &mut M) -> (value: u32)
        ensures
            read_step(old(mem).history(), final(mem).history(), self.field(), value as u64),
            value <= self.field().max_value(),
    {
        let field = self.bit_field();
        proof {
            lemma_low_mask_values();
        }
        field.read(mem) as u32
    }

    /// Stores `value` into the field and keeps the other bits of the
    /// register.
    pub fn write_volatile<M: VolatileMemory>(&self, mem: &mut M, value: u32)
        ensures
            write_step(old(mem).history(), final(mem).history(), self.field(), value as u64),
    {
        let field = self.bit_field();
        field.write(mem, value as u64);
    }
}

/// The count that the timer runs down from; storing zero stops it.
#[derive(Debug, Clone, Copy)]
pub struct InitialCount(usize);

impl InitialCount {
    /// The address of the register that holds the field.
    pub closed spec fn addr(self) -> usize {
        self.0
    }

    /// Where the field lies in that register.
    pub open spec fn field(self) -> BitField {
        BitField { addr: self.addr(), wide: false, offset: 0, bits: 32 }
    }

    /// Where the field lies for the block that begins at the address
    /// `block`.
    pub open spec fn field_at(block: usize) -> BitField {
        BitField { addr: (block + 0x380) as usize, wide: false, offset: 0, bits: 32 }
    }

    pub fn new(offset: LvtTimerAddr) -> (register: Self)
        ensures
            register.addr() == offset.address() + 0x380,
            register.field() == Self::field_at(offset.address()),
    {
        Self(offset.address() + 0x380)
    }

    /// The field as a value that performs the accesses.
    pub fn bit_field(&self) -> (field: BitField)
        ensures
            field == self.field(),
            field.wf(),
    {
        BitField::new(self.0, false, 0, 32)
    }

    /// Loads the register and returns the field.
    pub fn read_volatile<M: VolatileMemory>(&self, mem: &mut M) -> (value: u32)
        ensures
            read_step(old(mem).history(), final(mem).history(), self.field(), value as u64),
            value <= self.field().max_value(),
    {
        let field = self.bit_field();
        proof {
            lemma_low_mask_values();
        }
        field.read(mem) as u32
    }

    /// Stores `value` into the field and keeps the other bits of the
    /// register.
    pub fn write_volatile<M: VolatileMemory>(&self, mem: &mut M, value: u32)
        ensures
            write_step(old(mem).history(), final(mem).history(), self.field(), value as u64),
    {
        let field = self.bit_field();
        field.write(mem, value as u64);
    }
}

/// The count that the timer has run down to.
#[derive(Debug, Clone, Copy)]
pub struct CurrentCount(usize);

impl CurrentCount {
    /// The address of the register that holds the field.
    pub closed spec fn addr(self) -> usize {
        self.0
    }

    /// Where the field lies in that register.
    pub open spec fn field(self) -> BitField {
        BitField { addr: self.addr(), wide: false, offset: 0, bits: 32 }
    }

    /// Where the field lies for the block that begins at the address
    /// `block`.
    pub open spec fn field_at(block: usize) -> BitField {
        BitField { addr: (block + 0x390) as usize, wide: false, offset: 0, bits: 32 }
    }

    pub fn new(offset: LvtTimerAddr) -> (register: Self)
        ensures
            register.addr() == offset.address() + 0x390,
            register.field() == Self::field_at(offset.address()),
    {
        Self(offset.address() + 0x390)
    }

    /// The field as a value that performs the accesses.
    pub fn bit_field(&self) -> (field: BitField)
        ensures
            field == self.field(),
            field.wf(),
    {
        BitField::new(self.0, false, 0, 32)
    }

    /// Loads the register and returns the field.
    pub fn read_volatile<M: VolatileMemory>(&self, mem: &mut M) -> (value: u32)
        ensures
            read_step(old(mem).history(), final(mem).history(), self.field(), value as u64),
            value <= self.field().max_value(),
    {
        let field = self.bit_field();
        proof {
            lemma_low_mask_values();
        }
        field.read(mem) as u32
    }

    /// Stores `value` into the field and keeps the other bits of the
    /// register.
    pub fn write_volatile<M: VolatileMemory>(&self, mem: &mut M, value: u32)
        ensures
            write_step(old(mem).history(), final(mem).history(), self.field(), value as u64),
    {
        let field = self.bit_field();
        field.write(mem, value as u64);
    }
}

/// By how much the clock of the timer is divided.
#[derive(Debug, Clone, Copy)]
pub struct DivideConfig(usize);

impl DivideConfig {
    /// The address of the register that holds the field.
    pub closed spec fn addr(self) -> usize {
        self.0
    }

    /// Where the field lies in that register.
    pub open spec fn field(self) -> BitField {
        BitField { addr: self.addr(), wide: false, offset: 0, bits: 4 }
    }

    /// Where the field lies for the block that begins at the address
    /// `block`.
    pub open spec fn field_at(block: usize) -> BitField {
        BitField { addr: (block + 0x3e0) as usize, wide: false, offset: 0, bits: 4 }
    }

    pub fn new(offset: LvtTimerAddr) -> (register: Self)
        ensures
            register.addr() == offset.address() + 0x3e0,
            register.field() == Self::field_at(offset.address()),
    {
        Self(offset.address() + 0x3e0)
    }

    /// The field as a value that performs the accesses.
    pub fn bit_field(&self) -> (field: BitField)
        ensures
            field == self.field(),
            field.wf(),
    {
        BitField::new(self.0, false, 0, 4)
    }

    /// Loads the register and returns the field.
    pub fn read_volatile<M: VolatileMemory>(&self, mem: &mut M) -> (value: u32)
        ensures
            read_step(old(mem).history(), final(mem).history(), self.field(), value as u64),
            value <= self.field().max_value(),
    {
        let field = self.bit_field();
        proof {
            lemma_low_mask_values();
        }
        field.read(mem) as u32
    }

    /// Stores `value` into the field and keeps the other bits of the
    /// register.
    pub fn write_volatile<M: VolatileMemory>(&self, mem: &mut M, value: u32)
        ensures
            write_step(old(mem).history(), final(mem).history(), self.field(), value as u64),
    {
        let field = self.bit_field();
        field.write(mem, value as u64);
    }
}

/// By how much the clock of the timer is divided.
#[derive(Debug, Copy, Clone, PartialEq, Eq, Structural)]
pub enum LocalApicTimerDivide {
    By1,
    By2,
    By4,
    By8,
    By16,
    By32,
    By64,
    By128,
}

impl LocalApicTimerDivide {
    /// The value of the divide configuration register for this divisor.
    pub open spec fn spec_register_value(self) -> u32 {
        match self {
            LocalApicTimerDivide::By1 => 0b1011,
            LocalApicTimerDivide::By2 => 0b0000,
            LocalApicTimerDivide::By4 => 0b0001,
            LocalApicTimerDivide::By8 => 0b0010,
            LocalApicTimerDivide::By16 => 0b0011,
            LocalApicTimerDivide::By32 => 0b1000,
            LocalApicTimerDivide::By64 => 0b1001,
            LocalApicTimerDivide::By128 => 0b1010,
        }
    }

    #[verifier::when_used_as_spec(spec_register_value)]
    pub fn register_value(self) -> (value: u32)
        ensures
            value == self.spec_register_value(),
    {
        match self {
            LocalApicTimerDivide::By1 => 0b1011,
            LocalApicTimerDivide::By2 => 0b0000,
            LocalApicTimerDivide::By4 => 0b0001,
            LocalApicTimerDivide::By8 => 0b0010,
            LocalApicTimerDivide::By16 => 0b0011,
            LocalApicTimerDivide::By32 => 0b1000,
            LocalApicTimerDivide::By64 => 0b1001,
            LocalApicTimerDivide::By128 => 0b1010,
        }
    }
}

/// The registers of the local interrupt controller that the timer uses.
#[derive(Debug, Copy, Clone)]
pub struct LocalApicRegisters {
    pub interrupt_id_num: InterruptIdNumber,
    pub mask: Mask,
    pub timer_mode: TimerMode,
    pub initial_count: InitialCount,
    pub current_count: CurrentCount,
    pub divide_config: DivideConfig,
}

impl LocalApicRegisters {
    /// The fields all belong to the block at the address `block`.
    pub open spec fn lies_at(self, block: usize) -> bool {
        &&& self.interrupt_id_num.field() == InterruptIdNumber::field_at(block)
        &&& self.mask.field() == Mask::field_at(block)
        &&& self.timer_mode.field() == TimerMode::field_at(block)
        &&& self.initial_count.field() == InitialCount::field_at(block)
        &&& self.current_count.field() == CurrentCount::field_at(block)
        &&& self.divide_config.field() == DivideConfig::field_at(block)
    }

    pub fn new(addr: LvtTimerAddr) -> (registers: Self)
        ensures
            registers.lies_at(addr.address()),
    {
        Self {
            interrupt_id_num: InterruptIdNumber::new(addr),
            mask: Mask::new(addr),
            timer_mode: TimerMode::new(addr),
            initial_count: InitialCount::new(addr),
            current_count: CurrentCount::new(addr),
            divide_config: DivideConfig::new(addr),
        }
    }
}

impl Default for LocalApicRegisters {
    fn default() -> (registers: Self)
        ensures
            registers.lies_at(LOCAL_APIC_BASE),
    {
        Self::new(LvtTimerAddr::default())
    }
}

/// The timer of the local interrupt controller.
pub struct LocalApicTimer {
    local_apic_registers: LocalApicRegisters,
}

impl LocalApicTimer {
    pub closed spec fn registers(&self) -> LocalApicRegisters {
        self.local_apic_registers
    }

    /// The timer of the controller at [`LOCAL_APIC_BASE`].
    pub fn new() -> (timer: Self)
        ensures
            timer.registers().lies_at(LOCAL_APIC_BASE),
    {
        let local_apic_registers = LocalApicRegisters::default();
        Self { local_apic_registers }
    }

    /// What [`LocalApicTimer::start`] does on the accesses of `t` from index
    /// `at` on: five fields are stored, each with a load and a store of its
    /// register.
    pub open spec fn start_run(&self, t: Seq<Access>, at: int, divide: LocalApicTimerDivide)
        -> bool {
        let registers = self.registers();
        &&& registers.divide_config.field().stored_at(t, at, divide.register_value() as u64)
        &&& registers.interrupt_id_num.field().stored_at(t, at + 2, 0x41)
        &&& registers.mask.field().stored_at(t, at + 4, 0)
        &&& registers.timer_mode.field().stored_at(t, at + 6, 1)
        &&& registers.initial_count.field().stored_at(t, at + 8, 0xffff_ffff)
    }

    /// Starts the timer: the divisor is set, the timer is given its
    /// interrupt vector, unmasked and put into the periodic mode, and the
    /// count is set to the largest one.
    pub fn start<M: VolatileMemory>(&mut self, mem: &mut M, divide: LocalApicTimerDivide)
        ensures
            final(self).registers() == old(self).registers(),
            extends(old(mem).history(), final(mem).history()),
            final(mem).history().len() == old(mem).history().len() + 10,
            old(self).start_run(final(mem).history(), old(mem).history().len() as int, divide),
    {
        let registers = self.local_apic_registers;
        let ghost t0 = mem.history();
        registers.divide_config.write_volatile(mem, divide.register_value());
        let ghost t1 = mem.history();
        registers.interrupt_id_num.write_volatile(mem, VECTOR_APIC_TIMER);
        let ghost t2 = mem.history();
        registers.mask.write_volatile(mem, 0);
        let ghost t3 = mem.history();
        registers.timer_mode.write_volatile(mem, TIMER_MODE_PERIODIC);
        let ghost t4 = mem.history();
        registers.initial_count.write_volatile(mem, u32::MAX);
        proof {
            lemma_extends_transitive(t0, t1, t2);
            lemma_extends_transitive(t0, t2, t3);
            lemma_extends_transitive(t0, t3, t4);
            lemma_extends_transitive(t0, t4, mem.history());
        }
    }

    /// Loads the current count and returns how far the timer has run down
    /// from the largest count.
    pub fn elapsed<M: VolatileMemory>(&self, mem: &mut M) -> (elapsed: u32)
        ensures
            extends(old(mem).history(), final(mem).history()),
            final(mem).history().len() == old(mem).history().len() + 1,
            self.registers().current_count.field().loaded_at(
                final(mem).history(),
                old(mem).history().len() as int,
            ),
            elapsed == 0xffff_ffff - self.registers().current_count.field().value_at(
                final(mem).history(),
                old(mem).history().len() as int,
            ),
    {
        let current = self.local_apic_registers.current_count.read_volatile(mem);
        u32::MAX - current
    }

    /// Stops the timer by storing a count of zero.
    pub fn stop<M: VolatileMemory>(&mut self, mem: &mut M)
        ensures
            final(self).registers() == old(self).registers(),
            write_step(
                old(mem).history(),
                final(mem).history(),
                old(self).registers().initial_count.field(),
                0,
            ),
    {
        self.local_apic_registers.initial_count.write_volatile(mem, 0);
    }
}

} // verus!
