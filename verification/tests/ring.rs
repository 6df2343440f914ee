use xhc_core::error::AllocateReason;
use xhc_core::error::PciError;
use xhc_core::error::RingReason;
use xhc_core::ring::Ring;
use xhc_core::simulated::SimulatedRegisters;
use xhc_core::trb::Trb;

fn memory() -> SimulatedRegisters {
    SimulatedRegisters::new(0x2000, vec![0; 64], true)
}

fn block(n: u32) -> Trb {
    Trb { parameter: 0x1_0000_0000 + n as u64, status: n, control: (1 << 10) | (1 << 5) }
}

#[test]
fn ring_needs_two_slots_and_an_aligned_base() {
    assert_eq!(
        Ring::new(0x2000, 1).err(),
        Some(PciError::FailedOperateRing(RingReason::TooSmall { capacity: 1 }))
    );
    assert_eq!(
        Ring::new(0x2000, 0).err(),
        Some(PciError::FailedOperateRing(RingReason::TooSmall { capacity: 0 }))
    );
    assert_eq!(
        Ring::new(0x2010, 4).err(),
        Some(PciError::FailedAllocate(AllocateReason::NotAlignedAddress { expect_align_size: 64 }))
    );
    assert_eq!(
        Ring::new(u64::MAX - 63, 4).err(),
        Some(PciError::FailedOperateRing(RingReason::TooSmall { capacity: 4 }))
    );
    assert!(Ring::new(0x2000, 2).is_ok());
}

#[test]
fn a_new_ring_is_empty_with_a_cycle_state_of_one() {
    let ring = Ring::new(0x2000, 4).unwrap();
    assert_eq!(ring.capacity(), 4);
    assert_eq!(ring.base(), 0x2000);
    assert!(ring.cycle_state());
    assert_eq!(ring.pending(), 0);
    assert_eq!(ring.free_slots(), 3);
    for i in 0..4 {
        assert_eq!(ring.read(i), Some(Trb { parameter: 0, status: 0, control: 0 }));
    }
    assert_eq!(ring.read(4), None);
}

#[test]
fn enqueue_stamps_the_block_and_hands_out_the_address_of_its_slot() {
    let mut mem = memory();
    let mut ring = Ring::new(0x2000, 4).unwrap();
    assert_eq!(ring.enqueue(&mut mem, block(1)), Ok(0x2000));
    assert_eq!(ring.enqueue(&mut mem, block(2)), Ok(0x2010));
    assert_eq!(ring.read(0), Some(block(1).with_cycle_bit(true)));
    assert_eq!(ring.read(1), Some(block(2).with_cycle_bit(true)));
    assert_eq!(ring.pending(), 2);
    assert_eq!(ring.free_slots(), 1);
    assert!(ring.cycle_state());
}

#[test]
fn enqueue_stores_the_block_where_the_controller_reads_it() {
    let mut mem = memory();
    let mut ring = Ring::new(0x2000, 4).unwrap();
    ring.enqueue(&mut mem, block(1)).unwrap();
    ring.enqueue(&mut mem, block(2)).unwrap();
    assert_eq!(mem.word(0x2000), 1);
    assert_eq!(mem.word(0x2004), 1);
    assert_eq!(mem.word(0x2008), 1);
    assert_eq!(mem.word(0x200c), 0x421);
    assert_eq!(mem.word(0x2010), 2);
    assert_eq!(mem.word(0x2014), 1);
    assert_eq!(mem.word(0x2018), 2);
    assert_eq!(mem.word(0x201c), 0x421);
    assert_eq!(mem.word(0x2020), 0);
}

#[test]
fn filling_the_last_usable_slot_wraps_through_the_link_block() {
    let mut mem = memory();
    let mut ring = Ring::new(0x2000, 4).unwrap();
    for n in 1..=3 {
        assert_eq!(ring.enqueue(&mut mem, block(n)), Ok(0x2000 + 16 * (n as u64 - 1)));
    }
    assert!(!ring.cycle_state());
    let link = ring.read(3).unwrap();
    assert_eq!(link, Trb { parameter: 0x2000, status: 0, control: 0x1803 });
    assert!(link.toggle_cycle());
    assert!(link.cycle_bit());
    assert_eq!(mem.word(0x2030), 0x2000);
    assert_eq!(mem.word(0x203c), 0x1803);
}

#[test]
fn a_full_ring_refuses_the_next_block_and_keeps_every_slot() {
    let mut mem = memory();
    let mut ring = Ring::new(0x2000, 4).unwrap();
    for n in 1..=3 {
        ring.enqueue(&mut mem, block(n)).unwrap();
    }
    let before: Vec<Option<Trb>> = (0..4).map(|i| ring.read(i)).collect();
    let stored: Vec<u32> = (0..16).map(|i| mem.word(0x2000 + 4 * i)).collect();
    assert_eq!(ring.free_slots(), 0);
    assert_eq!(
        ring.enqueue(&mut mem, block(9)),
        Err(PciError::FailedOperateRing(RingReason::Full))
    );
    let after: Vec<Option<Trb>> = (0..4).map(|i| ring.read(i)).collect();
    assert_eq!(before, after);
    assert_eq!(stored, (0..16).map(|i| mem.word(0x2000 + 4 * i)).collect::<Vec<u32>>());
    assert_eq!(ring.pending(), 3);
    assert!(!ring.cycle_state());
}

#[test]
fn a_block_is_read_back_as_it_was_written_until_it_is_taken() {
    let mut mem = memory();
    let mut ring = Ring::new(0x2000, 8).unwrap();
    ring.enqueue(&mut mem, block(1)).unwrap();
    for n in 2..=6 {
        ring.enqueue(&mut mem, block(n)).unwrap();
        let read = ring.read(0).unwrap();
        assert_eq!(read, block(1).with_cycle_bit(true));
        assert!(read.cycle_bit());
        assert_eq!(read.parameter, block(1).parameter);
        assert_eq!(read.status, block(1).status);
        assert_eq!(ring.trb_at(0x2000), Some(read));
    }
}

#[test]
fn blocks_of_the_second_pass_carry_a_cycle_bit_of_zero() {
    let mut mem = memory();
    let mut ring = Ring::new(0x2000, 4).unwrap();
    for n in 1..=3 {
        ring.enqueue(&mut mem, block(n)).unwrap();
    }
    assert_eq!(ring.acknowledge(0x2000), Ok(1));
    assert_eq!(ring.enqueue(&mut mem, block(4)), Ok(0x2000));
    assert_eq!(ring.read(0), Some(block(4).with_cycle_bit(false)));
    assert_eq!(ring.read(1), Some(block(2).with_cycle_bit(true)));
    assert_eq!(mem.word(0x200c), 0x420);
    assert_eq!(
        ring.enqueue(&mut mem, block(5)),
        Err(PciError::FailedOperateRing(RingReason::Full))
    );
}

#[test]
fn acknowledge_releases_all_blocks_up_to_the_pointer() {
    let mut mem = memory();
    let mut ring = Ring::new(0x2000, 8).unwrap();
    for n in 1..=5 {
        ring.enqueue(&mut mem, block(n)).unwrap();
    }
    assert_eq!(ring.acknowledge(0x2020), Ok(3));
    assert_eq!(ring.pending(), 2);
    assert_eq!(ring.free_slots(), 5);
    assert_eq!(ring.acknowledge(0x2040), Ok(2));
    assert_eq!(ring.pending(), 0);
}

#[test]
fn acknowledge_refuses_pointers_that_are_not_those_of_outstanding_blocks() {
    let mut mem = memory();
    let mut ring = Ring::new(0x2000, 8).unwrap();
    let nothing = Err(PciError::FailedOperateRing(RingReason::NothingPending));
    assert_eq!(ring.acknowledge(0x2000), nothing);
    ring.enqueue(&mut mem, block(1)).unwrap();
    ring.enqueue(&mut mem, block(2)).unwrap();
    assert_eq!(ring.acknowledge(0x1ff0), nothing);
    assert_eq!(ring.acknowledge(0x2008), nothing);
    assert_eq!(ring.acknowledge(0x2020), nothing);
    assert_eq!(ring.acknowledge(0x2070), nothing);
    assert_eq!(ring.acknowledge(0x2080), nothing);
    assert_eq!(ring.pending(), 2);
    assert_eq!(ring.acknowledge(0x2010), Ok(2));
    assert_eq!(ring.acknowledge(0x2010), nothing);
}

#[test]
fn acknowledge_follows_the_ring_around() {
    let mut mem = memory();
    let mut ring = Ring::new(0x2000, 4).unwrap();
    for n in 1..=3 {
        ring.enqueue(&mut mem, block(n)).unwrap();
    }
    assert_eq!(ring.acknowledge(0x2010), Ok(2));
    assert_eq!(ring.enqueue(&mut mem, block(4)), Ok(0x2000));
    assert_eq!(ring.enqueue(&mut mem, block(5)), Ok(0x2010));
    assert_eq!(ring.acknowledge(0x2000), Ok(2));
    assert_eq!(ring.pending(), 1);
    assert_eq!(ring.acknowledge(0x2010), Ok(1));
    assert_eq!(ring.pending(), 0);
}

#[test]
fn trb_at_finds_slots_by_their_address() {
    let mut mem = memory();
    let mut ring = Ring::new(0x2000, 4).unwrap();
    ring.enqueue(&mut mem, block(1)).unwrap();
    assert_eq!(ring.trb_at(0x2000), Some(block(1).with_cycle_bit(true)));
    assert_eq!(ring.trb_at(0x2030), Some(Trb { parameter: 0, status: 0, control: 0 }));
    assert_eq!(ring.trb_at(0x2040), None);
    assert_eq!(ring.trb_at(0x2004), None);
    assert_eq!(ring.trb_at(0x1ff0), None);
}
