use vstd::prelude::*;

use crate::allocator::not_aligned_64;
use crate::allocator::one_request;
use crate::allocator::MemoryAllocatable;
use crate::error::AllocateReason;
use crate::error::InvalidRegisterReason;
use crate::error::OperationReason;
use crate::error::PciError;
use crate::error::PciResult;
use crate::registers::not_enough_memory;
use crate::registers::operational::OperationalRegistersOffset;
use crate::registers::operational::RunStop;
use crate::volatile::and_then_run;
use crate::volatile::confirmed_run;
use crate::volatile::extends;
use crate::volatile::flag_value;
use crate::volatile::lemma_extends_transitive;
use crate::volatile::lemma_low_mask_values;
use crate::volatile::read_step;
use crate::volatile::update_and_confirm;
use crate::volatile::update_run;
use crate::volatile::write_step;
use crate::volatile::Access;
use crate::volatile::BitField;
use crate::volatile::VolatileMemory;

verus! {

/// How many times a register is read back before an update is given up.
pub const WAIT_LIMIT: usize = 10;

/// The number of slots of the command ring, the link slot included.
pub const COMMAND_RING_SLOTS: usize = 256;

/// The number of bytes of the command ring: 16 for each slot.
pub const COMMAND_RING_BYTES: usize = 4096;

/// The address of the command ring control register.
#[derive(Debug, Copy, Clone, Ord, PartialOrd, Eq, PartialEq, Structural)]
pub struct CommandRingControlRegisterOffset(usize);

impl CommandRingControlRegisterOffset {
    pub closed spec fn spec_offset(&self) -> usize {
        self.0
    }

    /// The 64-bit register lies inside the address space.
    #[verifier::type_invariant]
    pub open spec fn in_range(&self) -> bool {
        self.spec_offset() + 0x8 <= usize::MAX
    }

    /// The register lies 0x18 bytes above the start of the operational
    /// registers.
    pub fn new(offset: OperationalRegistersOffset) -> (register: Self)
        ensures
            register.offset() == offset.offset() + 0x18,
    {
        Self(offset.offset() + 0x18)
    }

    #[verifier::when_used_as_spec(spec_offset)]
    pub fn offset(&self) -> (value: usize)
        ensures
            value == self.spec_offset(),
            value + 0x8 <= usize::MAX,
    {
        proof {
            use_type_invariant(self);
        }
        self.0
    }
}

/// The error for a flag that was found set where it has to be clear.
pub open spec fn illegal_flag(expect: bool) -> PciError {
    PciError::InvalidRegister(InvalidRegisterReason::IllegalBitFlag { expect })
}

/// The error for a command ring that is not stopped.
pub open spec fn must_be_stopped() -> PciError {
    PciError::FailedOperateToRegister(OperationReason::MustBeCommandRingStopped)
}

/// What checking that a flag is clear does on the accesses of `t` from
/// index `at` on: one load of the flag's register.
pub open spec fn check_clear_run(t: Seq<Access>, at: int, field: BitField) -> Option<
    (int, PciResult),
> {
    if !field.loaded_at(t, at) {
        None
    } else if field.value_at(t, at) != 0 {
        Some((at + 1, Err(illegal_flag(false))))
    } else {
        Some((at + 1, Ok(())))
    }
}

/// RCS: the cycle bit the controller expects of the first block of the
/// command ring.
#[derive(Debug, Clone, Copy)]
pub struct RingCycleState(usize);

impl RingCycleState {
    /// The address of the register that holds the field.
    pub closed spec fn addr(self) -> usize {
        self.0
    }

    /// Where the field lies in that register.
    pub open spec fn field(self) -> BitField {
        BitField { addr: self.addr(), wide: true, offset: 0, bits: 1 }
    }

    /// Where the field lies for the block that begins at the address
    /// `block`.
    pub open spec fn field_at(block: usize) -> BitField {
        BitField { addr: block, wide: true, offset: 0, bits: 1 }
    }

    pub fn new(offset: CommandRingControlRegisterOffset) -> (register: Self)
        ensures
            register.addr() == offset.offset(),
            register.field() == Self::field_at(offset.offset()),
    {
        Self(offset.offset())
    }

    /// The field as a value that performs the accesses.
    pub fn bit_field(&self) -> (field: BitField)
        ensures
            field == self.field(),
            field.wf(),
    {
        BitField::new(self.0, true, 0, 1)
    }

    /// Loads the register and returns whether the flag is set.
    pub fn read_flag_volatile<M: VolatileMemory>(&self, mem: &mut M) -> (flag: bool)
        ensures
            read_step(old(mem).history(), final(mem).history(), self.field(), flag_value(flag)),
    {
        let field = self.bit_field();
        proof {
            lemma_low_mask_values();
        }
        field.read(mem) != 0
    }

    /// Sets or clears the flag and keeps the other bits of the register.
    pub fn write_flag_volatile<M: VolatileMemory>(&self, mem: &mut M, flag: bool)
        ensures
            write_step(old(mem).history(), final(mem).history(), self.field(), flag_value(flag)),
    {
        let field = self.bit_field();
        field.write(
            mem,
            if flag {
                1
            } else {
                0
            },
        );
    }
}

/// CS: set to stop the command ring after the command in progress.
#[derive(Debug, Clone, Copy)]
pub struct CommandStop(usize);

impl CommandStop {
    /// The address of the register that holds the field.
    pub closed spec fn addr(self) -> usize {
        self.0
    }

    /// Where the field lies in that register.
    pub open spec fn field(self) -> BitField {
        BitField { addr: self.addr(), wide: true, offset: 1, bits: 1 }
    }

    /// Where the field lies for the block that begins at the address
    /// `block`.
    pub open spec fn field_at(block: usize) -> BitField {
        BitField { addr: block, wide: true, offset: 1, bits: 1 }
    }

    pub fn new(offset: CommandRingControlRegisterOffset) -> (register: Self)
        ensures
            register.addr() == offset.offset(),
            register.field() == Self::field_at(offset.offset()),
    {
        Self(offset.offset())
    }

    /// The field as a value that performs the accesses.
    pub fn bit_field(&self) -> (field: BitField)
        ensures
            field == self.field(),
            field.wf(),
    {
        BitField::new(self.0, true, 1, 1)
    }

    /// Loads the register and returns whether the flag is set.
    pub fn read_flag_volatile<M: VolatileMemory>(&self, mem: &mut M) -> (flag: bool)
        ensures
            read_step(old(mem).history(), final(mem).history(), self.field(), flag_value(flag)),
    {
        let field = self.bit_field();
        proof {
            lemma_low_mask_values();
        }
        field.read(mem) != 0
    }

    /// Sets or clears the flag and keeps the other bits of the register.
    pub fn write_flag_volatile<M: VolatileMemory>(&self, mem: &mut M, flag: bool)
        ensures
            write_step(old(mem).history(), final(mem).history(), self.field(), flag_value(flag)),
    {
        let field = self.bit_field();
        field.write(
            mem,
            if flag {
                1
            } else {
                0
            },
        );
    }
}

/// CA: set to abort the command in progress and stop the command ring.
#[derive(Debug, Clone, Copy)]
pub struct CommandAbort(usize);

impl CommandAbort {
    /// The address of the register that holds the field.
    pub closed spec fn addr(self) -> usize {
        self.0
    }

    /// Where the field lies in that register.
    pub open spec fn field(self) -> BitField {
        BitField { addr: self.addr(), wide: true, offset: 2, bits: 1 }
    }

    /// Where the field lies for the block that begins at the address
    /// `block`.
    pub open spec fn field_at(block: usize) -> BitField {
        BitField { addr: block, wide: true, offset: 2, bits: 1 }
    }

    pub fn new(offset: CommandRingControlRegisterOffset) -> (register: Self)
        ensures
            register.addr() == offset.offset(),
            register.field() == Self::field_at(offset.offset()),
    {
        Self(offset.offset())
    }

    /// The field as a value that performs the accesses.
    pub fn bit_field(&self) -> (field: BitField)
        ensures
            field == self.field(),
            field.wf(),
    {
        BitField::new(self.0, true, 2, 1)
    }

    /// Loads the register and returns whether the flag is set.
    pub fn read_flag_volatile<M: VolatileMemory>(&self, mem: &mut M) -> (flag: bool)
        ensures
            read_step(old(mem).history(), final(mem).history(), self.field(), flag_value(flag)),
    {
        let field = self.bit_field();
        proof {
            lemma_low_mask_values();
        }
        field.read(mem) != 0
    }

    /// Sets or clears the flag and keeps the other bits of the register.
    pub fn write_flag_volatile<M: VolatileMemory>(&self, mem: &mut M, flag: bool)
        ensures
            write_step(old(mem).history(), final(mem).history(), self.field(), flag_value(flag)),
    {
        let field = self.bit_field();
        field.write(
            mem,
            if flag {
                1
            } else {
                0
            },
        );
    }
}

/// CRR: set by the controller while the command ring is running.
#[derive(Debug, Clone, Copy)]
pub struct CommandRingRunning(usize);

impl CommandRingRunning {
    /// The address of the register that holds the field.
    pub closed spec fn addr(self) -> usize {
        self.0
    }

    /// Where the field lies in that register.
    pub open spec fn field(self) -> BitField {
        BitField { addr: self.addr(), wide: true, offset: 3, bits: 1 }
    }

    /// Where the field lies for the block that begins at the address
    /// `block`.
    pub open spec fn field_at(block: usize) -> BitField {
        BitField { addr: block, wide: true, offset: 3, bits: 1 }
    }

    pub fn new(offset: CommandRingControlRegisterOffset) -> (register: Self)
        ensures
            register.addr() == offset.offset(),
            register.field() == Self::field_at(offset.offset()),
    {
        Self(offset.offset())
    }

    /// The field as a value that performs the accesses.
    pub fn bit_field(&self) -> (field: BitField)
        ensures
            field == self.field(),
            field.wf(),
    {
        BitField::new(self.0, true, 3, 1)
    }

    /// Loads the register and returns whether the flag is set.
    pub fn read_flag_volatile<M: VolatileMemory>(&self, mem: &mut M) -> (flag: bool)
        ensures
            read_step(old(mem).history(), final(mem).history(), self.field(), flag_value(flag)),
    {
        let field = self.bit_field();
        proof {
            lemma_low_mask_values();
        }
        field.read(mem) != 0
    }

    /// Sets or clears the flag and keeps the other bits of the register.
    pub fn write_flag_volatile<M: VolatileMemory>(&self, mem: &mut M, flag: bool)
        ensures
            write_step(old(mem).history(), final(mem).history(), self.field(), flag_value(flag)),
    {
        let field = self.bit_field();
        field.write(
            mem,
            if flag {
                1
            } else {
                0
            },
        );
    }
}

/// The address of the command ring without its six lowest bits, which are
/// zero for a ring on a 64-byte boundary.
#[derive(Debug, Clone, Copy)]
pub struct CommandRingPointer(usize);

impl CommandRingPointer {
    /// The address of the register that holds the field.
    pub closed spec fn addr(self) -> usize {
        self.0
    }

    /// Where the field lies in that register.
    pub open spec fn field(self) -> BitField {
        BitField { addr: self.addr(), wide: true, offset: 6, bits: 58 }
    }

    /// Where the field lies for the block that begins at the address
    /// `block`.
    pub open spec fn field_at(block: usize) -> BitField {
        BitField { addr: block, wide: true, offset: 6, bits: 58 }
    }

    pub fn new(offset: CommandRingControlRegisterOffset) -> (register: Self)
        ensures
            register.addr() == offset.offset(),
            register.field() == Self::field_at(offset.offset()),
    {
        Self(offset.offset())
    }

    /// The field as a value that performs the accesses.
    pub fn bit_field(&self) -> (field: BitField)
        ensures
            field == self.field(),
            field.wf(),
    {
        BitField::new(self.0, true, 6, 58)
    }

    /// Loads the register and returns the field.
    pub fn read_volatile<M: VolatileMemory>(&self, mem: &mut M) -> (value: u64)
        ensures
            read_step(old(mem).history(), final(mem).history(), self.field(), value),
            value <= self.field().max_value(),
    {
        let field = self.bit_field();
        proof {
            lemma_low_mask_values();
        }
        field.read(mem)
    }

    /// Stores `value` into the field and keeps the other bits of the
    /// register.
    pub fn write_volatile<M: VolatileMemory>(&self, mem: &mut M, value: u64)
        ensures
            write_step(old(mem).history(), final(mem).history(), self.field(), value),
    {
        let field = self.bit_field();
        field.write(mem, value);
    }
}

/// What evaluating `first == want_first && second == want_second` on two
/// flags does on the accesses of `t` from index `at` on: the second flag is
/// loaded only where the first one has the wanted state.
pub open spec fn both_run(
    t: Seq<Access>,
    at: int,
    first: BitField,
    want_first: bool,
    second: BitField,
    want_second: bool,
) -> Option<(int, bool)> {
    if !first.loaded_at(t, at) {
        None
    } else if (first.value_at(t, at) != 0) != want_first {
        Some((at + 1, false))
    } else if !second.loaded_at(t, at + 1) {
        None
    } else {
        Some((at + 2, (second.value_at(t, at + 1) != 0) == want_second))
    }
}

impl RingCycleState {
    /// Makes the field for the register at `offset` and checks that the flag
    /// is clear.
    pub fn new_check_flag_false<M: VolatileMemory>(
        mem: &mut M,
        offset: CommandRingControlRegisterOffset,
    ) -> (r: PciResult<Self>)
        ensures
            extends(old(mem).history(), final(mem).history()),
            match check_clear_run(
                final(mem).history(),
                old(mem).history().len() as int,
                Self::field_at(offset.offset()),
            ) {
                Some((end, Ok(_))) => end == final(mem).history().len() && (r matches Ok(register)
                    && register.field() == Self::field_at(offset.offset())),
                Some((end, Err(e))) => end == final(mem).history().len() && r == Err::<Self, PciError>(
                    e,
                ),
                None => false,
            },
    {
        let register = Self::new(offset);
        if register.read_flag_volatile(mem) {
            Err(PciError::InvalidRegister(InvalidRegisterReason::IllegalBitFlag { expect: false }))
        } else {
            Ok(register)
        }
    }
}

impl CommandStop {
    /// Makes the field for the register at `offset` and checks that the flag
    /// is clear.
    pub fn new_check_flag_false<M: VolatileMemory>(
        mem: &mut M,
        offset: CommandRingControlRegisterOffset,
    ) -> (r: PciResult<Self>)
        ensures
            extends(old(mem).history(), final(mem).history()),
            match check_clear_run(
                final(mem).history(),
                old(mem).history().len() as int,
                Self::field_at(offset.offset()),
            ) {
                Some((end, Ok(_))) => end == final(mem).history().len() && (r matches Ok(register)
                    && register.field() == Self::field_at(offset.offset())),
                Some((end, Err(e))) => end == final(mem).history().len() && r == Err::<Self, PciError>(
                    e,
                ),
                None => false,
            },
    {
        let register = Self::new(offset);
        if register.read_flag_volatile(mem) {
            Err(PciError::InvalidRegister(InvalidRegisterReason::IllegalBitFlag { expect: false }))
        } else {
            Ok(register)
        }
    }
}

impl CommandAbort {
    /// Makes the field for the register at `offset` and checks that the flag
    /// is clear.
    pub fn new_check_flag_false<M: VolatileMemory>(
        mem: &mut M,
        offset: CommandRingControlRegisterOffset,
    ) -> (r: PciResult<Self>)
        ensures
            extends(old(mem).history(), final(mem).history()),
            match check_clear_run(
                final(mem).history(),
                old(mem).history().len() as int,
                Self::field_at(offset.offset()),
            ) {
                Some((end, Ok(_))) => end == final(mem).history().len() && (r matches Ok(register)
                    && register.field() == Self::field_at(offset.offset())),
                Some((end, Err(e))) => end == final(mem).history().len() && r == Err::<Self, PciError>(
                    e,
                ),
                None => false,
            },
    {
        let register = Self::new(offset);
        if register.read_flag_volatile(mem) {
            Err(PciError::InvalidRegister(InvalidRegisterReason::IllegalBitFlag { expect: false }))
        } else {
            Ok(register)
        }
    }

    /// What [`CommandAbort::abort_command`] does on the accesses of `t` from
    /// index `at` on, where `crr` is the running flag.
    pub open spec fn abort_command_run(t: Seq<Access>, at: int, crr: BitField) -> Option<
        (int, PciResult),
    > {
        if !crr.loaded_at(t, at) {
            None
        } else if crr.value_at(t, at) != 0 {
            Some((at + 1, Err(must_be_stopped())))
        } else if !crr.stored_at(t, at + 1, 1) {
            None
        } else {
            Some((at + 3, Ok(())))
        }
    }

    /// Refuses with `MustBeCommandRingStopped` while the running flag is
    /// set, without storing anything; otherwise sets the flag through a
    /// load and a store of the register.
    pub fn abort_command<M: VolatileMemory>(mem: &mut M, crr: &CommandRingRunning) -> (r: PciResult)
        ensures
            extends(old(mem).history(), final(mem).history()),
            Self::abort_command_run(
                final(mem).history(),
                old(mem).history().len() as int,
                crr.field(),
            ) == Some((final(mem).history().len() as int, r)),
    {
        if crr.read_flag_volatile(mem) {
            return Err(PciError::FailedOperateToRegister(OperationReason::MustBeCommandRingStopped));
        }
        let ghost mid = mem.history();
        crr.write_flag_volatile(mem, true);
        proof {
            let at = old(mem).history().len() as int;
            assert(mem.history()[at] == mid[at]);
            lemma_extends_transitive(old(mem).history(), mid, mem.history());
        }
        Ok(())
    }
}

impl CommandRingRunning {
    /// What [`CommandRingRunning::new_with_check`] does on the accesses of
    /// `t` from index `at` on: it compares the running flag `crr` with the
    /// run flag of the controller, `run_stop`, in both directions.
    pub open spec fn new_with_check_run(t: Seq<Access>, at: int, crr: BitField, run_stop: BitField)
        -> Option<(int, PciResult)> {
        match both_run(t, at, run_stop, true, crr, false) {
            None => None,
            Some((mid, true)) => Some((mid, Err(illegal_flag(true)))),
            Some((mid, false)) => match both_run(t, mid, run_stop, false, crr, true) {
                None => None,
                Some((end, true)) => Some((end, Err(illegal_flag(false)))),
                Some((end, false)) => Some((end, Ok(()))),
            },
        }
    }

    /// Makes the field for the register at `offset` and checks it against
    /// the controller's run flag: a running controller with a stopped
    /// command ring is refused with `IllegalBitFlag { expect: true }`, a
    /// halted controller with a running command ring with
    /// `IllegalBitFlag { expect: false }`.
    pub fn new_with_check<M: VolatileMemory>(
        mem: &mut M,
        offset: CommandRingControlRegisterOffset,
        run_stop: &RunStop,
    ) -> (r: PciResult<Self>)
        ensures
            extends(old(mem).history(), final(mem).history()),
            match Self::new_with_check_run(
                final(mem).history(),
                old(mem).history().len() as int,
                Self::field_at(offset.offset()),
                run_stop.field(),
            ) {
                Some((end, Ok(_))) => end == final(mem).history().len() && (r matches Ok(register)
                    && register.field() == Self::field_at(offset.offset())),
                Some((end, Err(e))) => end == final(mem).history().len() && r == Err::<Self, PciError>(
                    e,
                ),
                None => false,
            },
    {
        let s = Self::new(offset);
        let ghost t0 = mem.history();
        let xhc_is_run_but_self_is_false = run_stop.read_flag_volatile(mem) && !s.read_flag_volatile(
            mem,
        );
        let ghost t1 = mem.history();
        proof {
            let at = t0.len() as int;
            assert(both_run(t1, at, run_stop.field(), true, s.field(), false) == Some(
                (t1.len() as int, xhc_is_run_but_self_is_false),
            ));
        }
        if xhc_is_run_but_self_is_false {
            return Err(PciError::InvalidRegister(InvalidRegisterReason::IllegalBitFlag { expect: true }));
        }
        let xhc_is_stop_but_self_is_true = !run_stop.read_flag_volatile(mem) && s.read_flag_volatile(
            mem,
        );
        proof {
            let at = t0.len() as int;
            let t2 = mem.history();
            assert(extends(t1, t2));
            assert(both_run(t2, t1.len() as int, run_stop.field(), false, s.field(), true) == Some(
                (t2.len() as int, xhc_is_stop_but_self_is_true),
            ));
            assert(t2[at] == t1[at]);
            assert(t1.len() > at + 1 ==> t2[at + 1] == t1[at + 1]);
            assert(both_run(t2, at, run_stop.field(), true, s.field(), false) == Some(
                (t1.len() as int, false),
            ));
            lemma_extends_transitive(t0, t1, t2);
        }
        if xhc_is_stop_but_self_is_true {
            return Err(
                PciError::InvalidRegister(InvalidRegisterReason::IllegalBitFlag { expect: false }),
            );
        }
        Ok(s)
    }
}

impl CommandRingPointer {
    /// The running flag, which lies in the same register as the pointer.
    pub open spec fn running_flag(self) -> BitField {
        BitField { addr: self.addr(), wide: true, offset: 3, bits: 1 }
    }

    /// What [`CommandRingPointer::update_command_ring_addr`] does on the
    /// accesses of `t` from index `at` on.
    pub open spec fn update_command_ring_addr_run(self, t: Seq<Access>, at: int, addr: u64)
        -> Option<(int, PciResult)> {
        if !self.running_flag().loaded_at(t, at) {
            None
        } else if self.running_flag().value_at(t, at) != 0 {
            Some((at + 1, Err(must_be_stopped())))
        } else if addr % 64 != 0 {
            Some((at + 1, Err(not_aligned_64())))
        } else {
            confirmed_run(
                update_run(t, at + 1, self.field(), addr >> 6, WAIT_LIMIT as nat),
                addr >> 6,
                WAIT_LIMIT,
            )
        }
    }

    /// Points the controller at the command ring at `addr` and waits until
    /// the register shows the new pointer.
    ///
    /// The running flag is loaded first. While the command ring is running
    /// the register is left alone and the call fails with
    /// `MustBeCommandRingStopped`, whatever the address. Then an address
    /// that is not a multiple of 64 is refused, and nothing is stored. A
    /// pointer that the register does not show within [`WAIT_LIMIT`] loads
    /// is a timeout.
    pub fn update_command_ring_addr<M: VolatileMemory>(&self, mem: &mut M, addr: u64) -> (r:
        PciResult)
        ensures
            extends(old(mem).history(), final(mem).history()),
            self.update_command_ring_addr_run(
                final(mem).history(),
                old(mem).history().len() as int,
                addr,
            ) == Some((final(mem).history().len() as int, r)),
    {
        let running = BitField::new(self.0, true, 3, 1);
        proof {
            lemma_low_mask_values();
        }
        if running.read(mem) != 0 {
            return Err(PciError::FailedOperateToRegister(OperationReason::MustBeCommandRingStopped));
        }
        if addr % 64 != 0 {
            return Err(
                PciError::FailedAllocate(AllocateReason::NotAlignedAddress { expect_align_size: 64 }),
            );
        }
        let ghost mid = mem.history();
        let field = self.bit_field();
        let r = update_and_confirm(mem, &field, addr >> 6, WAIT_LIMIT);
        proof {
            let at = old(mem).history().len() as int;
            assert(mem.history()[at] == mid[at]);
            lemma_extends_transitive(old(mem).history(), mid, mem.history());
            assert(mid.len() == at + 1);
            assert(self.running_flag() == running);
            assert(self.running_flag().loaded_at(mem.history(), at));
            assert(self.running_flag().value_at(mem.history(), at) == 0);
        }
        r
    }

    /// Stores the pointer to the command ring at `addr` without waiting for
    /// the register to show it.
    pub fn set_command_ring_addr<M: VolatileMemory>(&self, mem: &mut M, addr: u64)
        ensures
            write_step(old(mem).history(), final(mem).history(), self.field(), addr >> 6),
    {
        self.write_volatile(mem, addr >> 6);
    }

    /// Loads the register and returns the address of the command ring.
    pub fn read_command_ring_addr<M: VolatileMemory>(&self, mem: &mut M) -> (addr: u64)
        ensures
            extends(old(mem).history(), final(mem).history()),
            final(mem).history().len() == old(mem).history().len() + 1,
            self.field().loaded_at(final(mem).history(), old(mem).history().len() as int),
            addr == self.field().value_at(final(mem).history(), old(mem).history().len() as int)
                * 64,
            addr % 64 == 0,
    {
        let pointer = self.read_volatile(mem);
        proof {
            lemma_low_mask_values();
        }
        assert(pointer << 6 == pointer * 64) by (bit_vector)
            requires
                pointer <= 0x3ff_ffff_ffff_ffff,
        ;
        pointer << 6
    }
}

/// The command ring control register, field by field.
#[derive(Debug, Clone, Copy)]
pub struct CommandRingControlRegister {
    pub rcs: RingCycleState,
    pub cs: CommandStop,
    pub ca: CommandAbort,
    pub crr: CommandRingRunning,
    pub command_ring_pointer: CommandRingPointer,
}

impl CommandRingControlRegister {
    /// The fields all lie in the register at `offset`.
    pub open spec fn lies_at(self, register: usize) -> bool {
        &&& self.rcs.field() == RingCycleState::field_at(register)
        &&& self.cs.field() == CommandStop::field_at(register)
        &&& self.ca.field() == CommandAbort::field_at(register)
        &&& self.crr.field() == CommandRingRunning::field_at(register)
        &&& self.command_ring_pointer.field() == CommandRingPointer::field_at(register)
    }

    /// What [`CommandRingControlRegister::new`] does on the accesses of `t`
    /// from index `at` on: it checks that the cycle state, the stop flag and
    /// the abort flag are clear, in this order, and stops at the first that
    /// is not.
    pub open spec fn new_run(t: Seq<Access>, at: int, register: usize) -> Option<
        (int, PciResult),
    > {
        and_then_run(
            check_clear_run(t, at, RingCycleState::field_at(register)),
            |a1: int|
                and_then_run(
                    check_clear_run(t, a1, CommandStop::field_at(register)),
                    |a2: int| check_clear_run(t, a2, CommandAbort::field_at(register)),
                ),
        )
    }

    /// Makes the fields of the register at `offset`. Fails with
    /// `IllegalBitFlag { expect: false }` when the cycle state, the stop
    /// flag or the abort flag is found set.
    pub fn new<M: VolatileMemory>(mem: &mut M, offset: CommandRingControlRegisterOffset) -> (r:
        PciResult<Self>)
        ensures
            extends(old(mem).history(), final(mem).history()),
            match Self::new_run(
                final(mem).history(),
                old(mem).history().len() as int,
                offset.offset(),
            ) {
                Some((end, Ok(_))) => end == final(mem).history().len() && (r matches Ok(register)
                    && register.lies_at(offset.offset())),
                Some((end, Err(e))) => end == final(mem).history().len() && r == Err::<Self, PciError>(
                    e,
                ),
                None => false,
            },
    {
        let ghost t0 = mem.history();
        let ghost at = t0.len() as int;
        let rcs = match RingCycleState::new_check_flag_false(mem, offset) {
            Ok(rcs) => rcs,
            Err(e) => {
                return Err(e);
            },
        };
        let ghost t1 = mem.history();
        let cs = match CommandStop::new_check_flag_false(mem, offset) {
            Ok(cs) => cs,
            Err(e) => {
                proof {
                    lemma_extends_transitive(t0, t1, mem.history());
                    assert(mem.history()[at] == t1[at]);
                }
                return Err(e);
            },
        };
        let ghost t2 = mem.history();
        proof {
            lemma_extends_transitive(t0, t1, t2);
        }
        let ca = match CommandAbort::new_check_flag_false(mem, offset) {
            Ok(ca) => ca,
            Err(e) => {
                proof {
                    lemma_extends_transitive(t0, t2, mem.history());
                    assert(mem.history()[at] == t1[at]);
                    assert(mem.history()[at + 1] == t2[at + 1]);
                }
                return Err(e);
            },
        };
        proof {
            lemma_extends_transitive(t0, t2, mem.history());
            assert(mem.history()[at] == t1[at]);
            assert(mem.history()[at + 1] == t2[at + 1]);
        }
        Ok(
            Self {
                rcs,
                cs,
                ca,
                crr: CommandRingRunning::new(offset),
                command_ring_pointer: CommandRingPointer::new(offset),
            },
        )
    }

    /// Obtains memory for the command ring and registers it; see
    /// [`allocate_command_ring`].
    pub fn setup_command_ring<M: VolatileMemory, A: MemoryAllocatable>(
        &self,
        mem: &mut M,
        allocator: &mut A,
    ) -> (r: PciResult)
        ensures
            extends(old(mem).history(), final(mem).history()),
            one_request(
                old(allocator).granted(),
                final(allocator).granted(),
                COMMAND_RING_BYTES,
                64,
                0x1_0000,
            ),
            allocate_command_ring_run(
                final(mem).history(),
                old(mem).history().len() as int,
                *self,
                final(allocator).granted().last().address,
            ) == Some((final(mem).history().len() as int, r)),
    {
        allocate_command_ring(mem, self, allocator)
    }
}

/// What [`obtain_command_ring`] does on the accesses of `t` from index `at`
/// on, given the allocator's answer, and the address of the ring.
pub open spec fn obtain_command_ring_run(
    t: Seq<Access>,
    at: int,
    crcr: CommandRingControlRegister,
    granted: Option<u64>,
) -> Option<(int, PciResult<u64>)> {
    match granted {
        None => Some((at, Err(not_enough_memory()))),
        Some(addr) => match register_command_ring_run(t, at, crcr, addr) {
            None => None,
            Some((end, Ok(_))) => Some((end, Ok(addr))),
            Some((end, Err(e))) => Some((end, Err(e))),
        },
    }
}

/// Asks the allocator for the [`COMMAND_RING_BYTES`] bytes of a command
/// ring, on a 64-byte boundary and inside one stretch of 64 KiB, registers
/// them as the command ring and returns their address. Fails with
/// `NotEnoughMemory`, without touching a register, when the allocator has
/// none, and else as [`register_command_ring`] does.
pub fn obtain_command_ring<M: VolatileMemory, A: MemoryAllocatable>(
    mem: &mut M,
    crcr: &CommandRingControlRegister,
    allocator: &mut A,
) -> (r: PciResult<u64>)
    ensures
        extends(old(mem).history(), final(mem).history()),
        one_request(
            old(allocator).granted(),
            final(allocator).granted(),
            COMMAND_RING_BYTES,
            64,
            0x1_0000,
        ),
        obtain_command_ring_run(
            final(mem).history(),
            old(mem).history().len() as int,
            *crcr,
            final(allocator).granted().last().address,
        ) == Some((final(mem).history().len() as int, r)),
{
    let command_ring_addr = match allocator.allocate_with_align(COMMAND_RING_BYTES, 64, 0x1_0000) {
        Some(granted) => granted.raw_address(),
        None => {
            return Err(PciError::FailedAllocate(AllocateReason::NotEnoughMemory));
        },
    };
    match register_command_ring(mem, crcr, command_ring_addr) {
        Ok(_) => Ok(command_ring_addr),
        Err(e) => Err(e),
    }
}

/// What [`allocate_command_ring`] does on the accesses of `t` from index
/// `at` on, given the allocator's answer.
pub open spec fn allocate_command_ring_run(
    t: Seq<Access>,
    at: int,
    crcr: CommandRingControlRegister,
    granted: Option<u64>,
) -> Option<(int, PciResult)> {
    match granted {
        None => Some((at, Err(not_enough_memory()))),
        Some(addr) => register_command_ring_run(t, at, crcr, addr),
    }
}

/// Obtains and registers the command ring as [`obtain_command_ring`] does,
/// without handing out its address.
pub fn allocate_command_ring<M: VolatileMemory, A: MemoryAllocatable>(
    mem: &mut M,
    crcr: &CommandRingControlRegister,
    allocator: &mut A,
) -> (r: PciResult)
    ensures
        extends(old(mem).history(), final(mem).history()),
        one_request(
            old(allocator).granted(),
            final(allocator).granted(),
            COMMAND_RING_BYTES,
            64,
            0x1_0000,
        ),
        allocate_command_ring_run(
            final(mem).history(),
            old(mem).history().len() as int,
            *crcr,
            final(allocator).granted().last().address,
        ) == Some((final(mem).history().len() as int, r)),
{
    match obtain_command_ring(mem, crcr, allocator) {
        Ok(_) => Ok(()),
        Err(e) => Err(e),
    }
}

/// What [`register_command_ring`] does on the accesses of `t` from index
/// `at` on.
pub open spec fn register_command_ring_run(
    t: Seq<Access>,
    at: int,
    crcr: CommandRingControlRegister,
    command_ring_addr: u64,
) -> Option<(int, PciResult)> {
    let cs = crcr.cs.field();
    let ca = crcr.ca.field();
    let crr = crcr.crr.field();
    if !cs.loaded_at(t, at) {
        None
    } else if cs.value_at(t, at) != 0 {
        Some((at + 1, Err(must_be_stopped())))
    } else if !ca.loaded_at(t, at + 1) {
        None
    } else if ca.value_at(t, at + 1) != 0 {
        Some((at + 2, Err(must_be_stopped())))
    } else if !crr.loaded_at(t, at + 2) {
        None
    } else if crr.value_at(t, at + 2) != 0 {
        Some((at + 3, Err(must_be_stopped())))
    } else if command_ring_addr % 64 != 0 {
        Some((at + 3, Err(not_aligned_64())))
    } else if crcr.rcs.field().stored_at(t, at + 3, 1) && crcr.command_ring_pointer.field().stored_at(
        t,
        at + 5,
        command_ring_addr >> 6,
    ) {
        Some((at + 7, Ok(())))
    } else {
        None
    }
}

/// Makes the ring at `command_ring_addr` the command ring.
///
/// The flags of the register are loaded first: stop, abort and running, in
/// this order. The first that is set ends the call with
/// `MustBeCommandRingStopped`, whatever the address, and nothing is
/// stored. Then an address that is not a multiple of 64 is refused, and
/// nothing is stored either. Otherwise the ring cycle state is set to 1
/// and the pointer is stored.
pub fn register_command_ring<M: VolatileMemory>(
    mem: &mut M,
    crcr: &CommandRingControlRegister,
    command_ring_addr: u64,
) -> (r: PciResult)
    ensures
        extends(old(mem).history(), final(mem).history()),
        register_command_ring_run(
            final(mem).history(),
            old(mem).history().len() as int,
            *crcr,
            command_ring_addr,
        ) == Some((final(mem).history().len() as int, r)),
{
    let ghost t0 = mem.history();
    let ghost at = t0.len() as int;
    if crcr.cs.read_flag_volatile(mem) {
        return Err(PciError::FailedOperateToRegister(OperationReason::MustBeCommandRingStopped));
    }
    let ghost t1 = mem.history();
    if crcr.ca.read_flag_volatile(mem) {
        proof {
            lemma_extends_transitive(t0, t1, mem.history());
            assert(mem.history()[at] == t1[at]);
        }
        return Err(PciError::FailedOperateToRegister(OperationReason::MustBeCommandRingStopped));
    }
    let ghost t2 = mem.history();
    if crcr.crr.read_flag_volatile(mem) {
        proof {
            let t3 = mem.history();
            lemma_extends_transitive(t0, t1, t2);
            lemma_extends_transitive(t0, t2, t3);
            assert(t3[at + 1] == t2[at + 1]);
            assert(t2[at] == t1[at]);
            assert(t3[at] == t2[at]);
        }
        return Err(PciError::FailedOperateToRegister(OperationReason::MustBeCommandRingStopped));
    }
    let ghost t3 = mem.history();
    proof {
        lemma_extends_transitive(t0, t1, t2);
        lemma_extends_transitive(t0, t2, t3);
        assert(t3[at + 1] == t2[at + 1]);
        assert(t2[at] == t1[at]);
        assert(t3[at] == t2[at]);
    }
    if command_ring_addr % 64 != 0 {
        return Err(
            PciError::FailedAllocate(AllocateReason::NotAlignedAddress { expect_align_size: 64 }),
        );
    }
    crcr.rcs.write_flag_volatile(mem, true);
    let ghost t4 = mem.history();
    crcr.command_ring_pointer.set_command_ring_addr(mem, command_ring_addr);
    proof {
        let t5 = mem.history();
        lemma_extends_transitive(t0, t1, t2);
        lemma_extends_transitive(t0, t2, t3);
        lemma_extends_transitive(t0, t3, t4);
        lemma_extends_transitive(t0, t4, t5);
    }
    Ok(())
}

} // verus!
