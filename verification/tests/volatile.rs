use xhc_core::error::OperationReason;
use xhc_core::error::PciError;
use xhc_core::simulated::SimulatedRegisters;
use xhc_core::volatile::update_and_confirm;
use xhc_core::volatile::wait_update_32bits_register_for;
use xhc_core::volatile::wait_update_64bits_register_for;
use xhc_core::volatile::wait_update_for;
use xhc_core::volatile::BitField;
use xhc_core::volatile::RawMemory;
use xhc_core::volatile::Recorded;
use xhc_core::volatile::VolatileMemory;

/// A register that counts the loads made of it and shows `shown` from the
/// load with the number `after` on.
struct Delayed {
    loads: usize,
    stores: usize,
    after: usize,
    shown: u32,
}

impl RawMemory for Delayed {
    fn load_32(&mut self, _addr: usize) -> u32 {
        self.loads += 1;
        if self.loads > self.after {
            self.shown
        } else {
            0
        }
    }

    fn store_32(&mut self, _addr: usize, _value: u32) {
        self.stores += 1;
    }

    fn load_64(&mut self, _addr: usize) -> u64 {
        self.loads += 1;
        if self.loads > self.after {
            self.shown as u64
        } else {
            0
        }
    }

    fn store_64(&mut self, _addr: usize, _value: u64) {
        self.stores += 1;
    }
}

#[test]
fn bit_field_reads_the_bits_it_covers() {
    let mut memory = SimulatedRegisters::new(0x1000, vec![0xabcd_1234, 0], true);
    assert_eq!(BitField::new(0x1000, false, 0, 8).read(&mut memory), 0x34);
    assert_eq!(BitField::new(0x1000, false, 16, 16).read(&mut memory), 0xabcd);
    assert_eq!(BitField::new(0x1000, false, 4, 4).read(&mut memory), 0x3);
    assert_eq!(BitField::new(0x1000, false, 0, 32).read(&mut memory), 0xabcd_1234);
}

#[test]
fn bit_field_write_keeps_the_other_bits() {
    let mut memory = SimulatedRegisters::new(0x1000, vec![0xffff_ffff, 0], true);
    BitField::new(0x1000, false, 8, 4).write(&mut memory, 0x5);
    assert_eq!(memory.word(0x1000), 0xffff_f5ff);
    BitField::new(0x1000, false, 31, 1).write(&mut memory, 0);
    assert_eq!(memory.word(0x1000), 0x7fff_f5ff);
}

#[test]
fn bit_field_write_drops_the_bits_that_do_not_fit() {
    let mut memory = SimulatedRegisters::new(0x1000, vec![0, 0], true);
    BitField::new(0x1000, false, 4, 4).write(&mut memory, 0x1f);
    assert_eq!(memory.word(0x1000), 0xf0);
}

#[test]
fn wide_bit_field_spans_two_words() {
    let mut memory = SimulatedRegisters::new(0x1000, vec![0, 0], true);
    let field = BitField::new(0x1000, true, 6, 58);
    field.write(&mut memory, 0x1234_5678_9abc_def0 >> 6);
    assert_eq!(memory.word(0x1000), 0x9abc_dec0);
    assert_eq!(memory.word(0x1004), 0x1234_5678);
    assert_eq!(field.read(&mut memory), 0x1234_5678_9abc_def0 >> 6);
}

#[test]
fn update_succeeds_at_once_on_a_register_that_shows_what_was_stored() {
    let mut memory = SimulatedRegisters::new(0x1000, vec![0, 0], true);
    let field = BitField::new(0x1000, false, 0, 16);
    assert_eq!(update_and_confirm(&mut memory, &field, 7, 10), Ok(()));
    assert_eq!(memory.word(0x1000), 7);
}

#[test]
fn update_times_out_on_a_register_that_never_shows_what_was_stored() {
    let mut memory = SimulatedRegisters::new(0x1000, vec![0, 0], false);
    let field = BitField::new(0x1000, false, 0, 16);
    assert_eq!(
        update_and_confirm(&mut memory, &field, 7, 10),
        Err(PciError::FailedOperateToRegister(OperationReason::SpinTimeout {
            expect: 7,
            attempts: 10
        }))
    );
    assert_eq!(memory.word(0x1000), 0);
}

#[test]
fn update_makes_one_store_and_one_confirming_load_where_the_first_load_confirms() {
    let mut memory = Recorded::new(Delayed { loads: 0, stores: 0, after: 1, shown: 7 });
    let field = BitField::new(0x1000, false, 0, 16);
    assert_eq!(update_and_confirm(&mut memory, &field, 7, 10), Ok(()));
    assert_eq!(memory.raw().stores, 1);
    assert_eq!(memory.raw().loads, 2);
}

#[test]
fn update_gives_up_after_exactly_the_configured_number_of_loads() {
    let mut memory = Recorded::new(Delayed { loads: 0, stores: 0, after: 1000, shown: 7 });
    let field = BitField::new(0x1000, false, 0, 16);
    assert!(update_and_confirm(&mut memory, &field, 7, 10).is_err());
    assert_eq!(memory.raw().stores, 1);
    assert_eq!(memory.raw().loads, 11);
}

#[test]
fn wait_stops_at_the_first_load_that_shows_the_value() {
    let mut memory = Recorded::new(Delayed { loads: 0, stores: 0, after: 3, shown: 9 });
    let field = BitField::new(0x1000, false, 0, 32);
    assert_eq!(wait_update_for(&mut memory, 10, 9, &field), Ok(()));
    assert_eq!(memory.raw().loads, 4);
    assert_eq!(memory.raw().stores, 0);
}

#[test]
fn wait_succeeds_on_the_last_allowed_load() {
    let mut memory = Recorded::new(Delayed { loads: 0, stores: 0, after: 9, shown: 9 });
    let field = BitField::new(0x1000, false, 0, 32);
    assert_eq!(wait_update_32bits_register_for(&mut memory, 10, 9, &field), Ok(()));
    assert_eq!(memory.raw().loads, 10);
}

#[test]
fn wait_fails_one_load_short_of_the_value() {
    let mut memory = Recorded::new(Delayed { loads: 0, stores: 0, after: 10, shown: 9 });
    let field = BitField::new(0x1000, true, 0, 64);
    assert_eq!(
        wait_update_64bits_register_for(&mut memory, 10, 9, &field),
        Err(PciError::FailedOperateToRegister(OperationReason::SpinTimeout {
            expect: 9,
            attempts: 10
        }))
    );
    assert_eq!(memory.raw().loads, 10);
}

#[test]
fn wait_with_no_attempts_fails_without_a_load() {
    let mut memory = Recorded::new(Delayed { loads: 0, stores: 0, after: 0, shown: 9 });
    let field = BitField::new(0x1000, false, 0, 32);
    assert!(wait_update_for(&mut memory, 0, 9, &field).is_err());
    assert_eq!(memory.raw().loads, 0);
}

#[test]
fn simulated_registers_read_zero_outside_the_block() {
    let mut memory = SimulatedRegisters::new(0x1000, vec![1, 2], true);
    assert_eq!(memory.read_volatile_32(0x0ffc), 0);
    assert_eq!(memory.read_volatile_32(0x1008), 0);
    assert_eq!(memory.read_volatile_32(0x1002), 0);
    assert_eq!(memory.read_volatile_32(0x1004), 2);
    assert_eq!(memory.read_volatile_64(0x1000), 0x2_0000_0001);
    assert_eq!(memory.read_volatile_64(0x1004), 2);
}

#[test]
fn simulated_registers_that_are_not_latched_drop_stores() {
    let mut memory = SimulatedRegisters::new(0x1000, vec![1, 2], false);
    memory.write_volatile_32(0x1000, 5);
    memory.write_volatile_64(0x1000, 0xffff_ffff_ffff_ffff);
    assert_eq!(memory.word(0x1000), 1);
    assert_eq!(memory.word(0x1004), 2);
}
