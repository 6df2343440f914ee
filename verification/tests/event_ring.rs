use xhc_core::error::AllocateReason;
use xhc_core::error::PciError;
use xhc_core::error::RingReason;
use xhc_core::event_ring::Dequeued;
use xhc_core::event_ring::EventRing;
use xhc_core::event_ring::Segment;
use xhc_core::trb::Event;
use xhc_core::trb::Trb;

fn empty(slots: usize) -> Vec<Trb> {
    vec![Trb { parameter: 0, status: 0, control: 0 }; slots]
}

fn port(port_id: u8, cycle: bool) -> Trb {
    Event::PortStatusChange { port_id, completion_code: 1 }.encode().with_cycle_bit(cycle)
}

#[test]
fn event_ring_needs_segments_that_can_be_used() {
    assert_eq!(
        EventRing::new(vec![]).err(),
        Some(PciError::FailedOperateRing(RingReason::TooSmall { capacity: 0 }))
    );
    assert_eq!(
        EventRing::new(vec![Segment { base: 0x4000, size: 0 }]).err(),
        Some(PciError::FailedOperateRing(RingReason::TooSmall { capacity: 0 }))
    );
    assert_eq!(
        EventRing::new(vec![Segment { base: 0x4000, size: 4 }, Segment { base: 0x5008, size: 4 }])
            .err(),
        Some(PciError::FailedAllocate(AllocateReason::NotAlignedAddress { expect_align_size: 64 }))
    );
    assert_eq!(
        EventRing::new(vec![Segment { base: u64::MAX - 63, size: 8 }]).err(),
        Some(PciError::FailedOperateRing(RingReason::TooSmall { capacity: 8 }))
    );
}

#[test]
fn a_new_event_ring_points_at_its_first_slot() {
    let ring = EventRing::new(vec![Segment { base: 0x4000, size: 4 }]).unwrap();
    assert_eq!(ring.dequeue_pointer(), 0x4000);
    assert!(ring.cycle_state());
    assert_eq!(ring.segments_count(), 1);
}

#[test]
fn segment_table_entries_hold_address_and_size() {
    let ring = EventRing::new(vec![
        Segment { base: 0x1_2345_6780, size: 32 },
        Segment { base: 0x4000, size: 4 },
    ])
    .unwrap();
    assert_eq!(ring.segment_table(), vec![[0x2345_6780, 1, 32, 0], [0x4000, 0, 4, 0]]);
    assert_eq!(Segment { base: 0x4000, size: 4 }.table_entry(), [0x4000, 0, 4, 0]);
}

#[test]
fn an_empty_ring_hands_out_nothing() {
    let mut ring = EventRing::new(vec![Segment { base: 0x4000, size: 4 }]).unwrap();
    let memory = vec![empty(4)];
    assert_eq!(ring.pop(&memory), None);
    assert_eq!(ring.drain(&memory), vec![]);
    assert_eq!(ring.dequeue_pointer(), 0x4000);
}

#[test]
fn pop_takes_the_event_at_the_dequeue_pointer_and_moves_on() {
    let mut ring = EventRing::new(vec![Segment { base: 0x4000, size: 4 }]).unwrap();
    let mut memory = vec![empty(4)];
    memory[0][0] = port(1, true);
    assert_eq!(
        ring.pop(&memory),
        Some(Dequeued {
            event: Event::PortStatusChange { port_id: 1, completion_code: 1 },
            next_pointer: 0x4010
        })
    );
    assert_eq!(ring.dequeue_pointer(), 0x4010);
    assert_eq!(ring.pop(&memory), None);
}

#[test]
fn the_cycle_bit_alone_ends_the_run() {
    let mut ring = EventRing::new(vec![Segment { base: 0x4000, size: 4 }]).unwrap();
    let mut memory = vec![empty(4)];
    memory[0][0] = port(1, true);
    memory[0][1] = port(2, true);
    memory[0][2] = port(3, false);
    memory[0][3] = port(4, true);
    let events = ring.drain(&memory);
    assert_eq!(events.len(), 2);
    assert_eq!(events[0].event, Event::PortStatusChange { port_id: 1, completion_code: 1 });
    assert_eq!(events[0].next_pointer, 0x4010);
    assert_eq!(events[1].event, Event::PortStatusChange { port_id: 2, completion_code: 1 });
    assert_eq!(events[1].next_pointer, 0x4020);
    assert_eq!(ring.dequeue_pointer(), 0x4020);
}

#[test]
fn the_ring_wraps_across_its_segments_and_toggles_its_cycle_state() {
    let mut ring = EventRing::new(vec![
        Segment { base: 0x4000, size: 2 },
        Segment { base: 0x8000, size: 2 },
    ])
    .unwrap();
    let memory = vec![vec![port(1, true), port(2, true)], vec![port(3, true), port(4, true)]];
    let events = ring.drain(&memory);
    assert_eq!(events.len(), 4);
    assert_eq!(events[1].next_pointer, 0x8000);
    assert_eq!(events[2].next_pointer, 0x8010);
    assert_eq!(events[3].next_pointer, 0x4000);
    assert_eq!(ring.dequeue_pointer(), 0x4000);
    assert!(!ring.cycle_state());
    assert_eq!(ring.drain(&memory), vec![]);
}

#[test]
fn events_of_the_second_pass_are_taken_with_the_toggled_cycle_bit() {
    let mut ring = EventRing::new(vec![Segment { base: 0x4000, size: 2 }]).unwrap();
    let mut memory = vec![vec![port(1, true), port(2, true)]];
    assert_eq!(ring.drain(&memory).len(), 2);
    memory[0][0] = port(3, false);
    let events = ring.drain(&memory);
    assert_eq!(events.len(), 1);
    assert_eq!(events[0].event, Event::PortStatusChange { port_id: 3, completion_code: 1 });
    assert_eq!(ring.dequeue_pointer(), 0x4010);
}

#[test]
fn a_run_begun_in_the_middle_ends_where_it_began() {
    let mut ring = EventRing::new(vec![Segment { base: 0x4000, size: 4 }]).unwrap();
    let mut memory = vec![empty(4)];
    memory[0][0] = port(1, true);
    assert_eq!(ring.drain(&memory).len(), 1);
    memory[0][0] = port(5, false);
    memory[0][1] = port(2, true);
    memory[0][2] = port(3, true);
    memory[0][3] = port(4, true);
    let events = ring.drain(&memory);
    assert_eq!(events.len(), 4);
    assert_eq!(events[3].event, Event::PortStatusChange { port_id: 5, completion_code: 1 });
    assert_eq!(ring.dequeue_pointer(), 0x4010);
    assert!(!ring.cycle_state());
}

#[test]
fn memory_without_the_slot_counts_as_empty() {
    let mut ring = EventRing::new(vec![Segment { base: 0x4000, size: 4 }]).unwrap();
    assert_eq!(ring.pop(&vec![]), None);
    assert_eq!(ring.pop(&vec![vec![]]), None);
}
