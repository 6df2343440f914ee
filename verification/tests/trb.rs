use xhc_core::trb::Event;
use xhc_core::trb::SetupData;
use xhc_core::trb::Trb;
use xhc_core::trb::TYPE_ADDRESS_DEVICE;
use xhc_core::trb::TYPE_CONFIGURE_ENDPOINT;
use xhc_core::trb::TYPE_DATA_STAGE;
use xhc_core::trb::TYPE_ENABLE_SLOT;
use xhc_core::trb::TYPE_LINK;
use xhc_core::trb::TYPE_NORMAL;
use xhc_core::trb::TYPE_SETUP_STAGE;
use xhc_core::trb::TYPE_STATUS_STAGE;

#[test]
fn link_block_has_the_layout_of_the_controller() {
    let link = Trb::link(0x1000, true);
    assert_eq!(link, Trb { parameter: 0x1000, status: 0, control: 0x1802 });
    assert_eq!(link.trb_type(), TYPE_LINK);
    assert!(link.toggle_cycle());
    assert!(!link.cycle_bit());
    let plain = Trb::link(0x1234_5678_9abc_def5, false);
    assert_eq!(plain, Trb { parameter: 0x1234_5678_9abc_def0, status: 0, control: 0x1800 });
    assert!(!plain.toggle_cycle());
}

#[test]
fn command_blocks_have_the_layout_of_the_controller() {
    assert_eq!(Trb::enable_slot(), Trb { parameter: 0, status: 0, control: 0x2400 });
    assert_eq!(Trb::enable_slot().trb_type(), TYPE_ENABLE_SLOT);
    assert_eq!(
        Trb::address_device(0x3000, 1),
        Trb { parameter: 0x3000, status: 0, control: 0x0100_2c00 }
    );
    assert_eq!(Trb::address_device(0x3000, 1).trb_type(), TYPE_ADDRESS_DEVICE);
    assert_eq!(
        Trb::configure_endpoint(0x300f, 0xff),
        Trb { parameter: 0x3000, status: 0, control: 0xff00_3000 }
    );
    assert_eq!(Trb::configure_endpoint(0x3000, 2).trb_type(), TYPE_CONFIGURE_ENDPOINT);
}

#[test]
fn control_transfer_blocks_have_the_layout_of_the_controller() {
    let setup = SetupData { request_type: 0x80, request: 6, value: 0x0200, index: 0, length: 256 };
    assert_eq!(
        Trb::setup_stage(setup, 3),
        Trb { parameter: 0x0100_0000_0200_0680, status: 8, control: 0x0003_0840 }
    );
    assert_eq!(Trb::setup_stage(setup, 3).trb_type(), TYPE_SETUP_STAGE);
    let other = SetupData { request_type: 0x21, request: 11, value: 1, index: 2, length: 0 };
    assert_eq!(
        Trb::setup_stage(other, 0),
        Trb { parameter: 0x0000_0002_0001_0b21, status: 8, control: 0x0840 }
    );
    assert_eq!(
        Trb::data_stage(0x5000, 256, true, true),
        Trb { parameter: 0x5000, status: 256, control: 0x0001_0c20 }
    );
    assert_eq!(
        Trb::data_stage(0x5000, 0x2_0001, false, false),
        Trb { parameter: 0x5000, status: 1, control: 0x0c00 }
    );
    assert_eq!(Trb::data_stage(0, 0, true, false).trb_type(), TYPE_DATA_STAGE);
    assert_eq!(Trb::status_stage(false, false), Trb { parameter: 0, status: 0, control: 0x1000 });
    assert_eq!(Trb::status_stage(true, true), Trb { parameter: 0, status: 0, control: 0x0001_1020 });
    assert_eq!(Trb::status_stage(true, true).trb_type(), TYPE_STATUS_STAGE);
    assert_eq!(Trb::normal(0x6000, 8), Trb { parameter: 0x6000, status: 8, control: 0x0420 });
    assert_eq!(Trb::normal(0x6000, 8).trb_type(), TYPE_NORMAL);
}

#[test]
fn cycle_bit_is_set_and_cleared_without_touching_the_rest() {
    let trb = Trb { parameter: 7, status: 9, control: 0x0001_0c20 };
    let set = trb.with_cycle_bit(true);
    assert_eq!(set, Trb { parameter: 7, status: 9, control: 0x0001_0c21 });
    assert!(set.cycle_bit());
    assert_eq!(set.trb_type(), trb.trb_type());
    let cleared = set.with_cycle_bit(false);
    assert_eq!(cleared, trb);
    assert!(!cleared.cycle_bit());
    assert_eq!(set.with_cycle_bit(true), set);
}

#[test]
fn block_and_words_round_trip() {
    let trb = Trb { parameter: 0x1122_3344_5566_7788, status: 0x99aa_bbcc, control: 0xddee_ff01 };
    assert_eq!(trb.words(), [0x5566_7788, 0x1122_3344, 0x99aa_bbcc, 0xddee_ff01]);
    assert_eq!(Trb::from_words(trb.words()), trb);
    let words = [1, 2, 3, 4];
    assert_eq!(Trb::from_words(words), Trb { parameter: 0x2_0000_0001, status: 3, control: 4 });
    assert_eq!(Trb::from_words(words).words(), words);
}

#[test]
fn transfer_event_is_decoded_field_by_field() {
    let trb = Trb { parameter: 0x4010, status: 0x0d00_00de, control: 0x0103_8001 };
    assert_eq!(
        Event::decode(trb),
        Event::Transfer {
            trb_pointer: 0x4010,
            residual_length: 0xde,
            completion_code: 13,
            endpoint_id: 3,
            slot_id: 1,
        }
    );
}

#[test]
fn command_completion_event_is_decoded_field_by_field() {
    let trb = Trb { parameter: 0x2010, status: 0x0100_0000, control: 0x0200_8400 };
    assert_eq!(
        Event::decode(trb),
        Event::CommandCompletion { command_trb_pointer: 0x2010, completion_code: 1, slot_id: 2 }
    );
}

#[test]
fn port_status_change_event_is_decoded_field_by_field() {
    let trb = Trb { parameter: 0x0500_0000, status: 0x0100_0000, control: 0x8801 };
    assert_eq!(Event::decode(trb), Event::PortStatusChange { port_id: 5, completion_code: 1 });
}

#[test]
fn other_events_are_not_supported() {
    let trb = Trb { parameter: 0, status: 0, control: 37 << 10 };
    assert_eq!(Event::decode(trb), Event::NotSupport { trb_type: 37 });
    assert_eq!(Event::decode(Trb::enable_slot()), Event::NotSupport { trb_type: 9 });
}

#[test]
fn events_round_trip_through_their_blocks() {
    let events = [
        Event::Transfer {
            trb_pointer: 0xffff_ffff_ffff_fff0,
            residual_length: 0xff_ffff,
            completion_code: 0xff,
            endpoint_id: 31,
            slot_id: 0xff,
        },
        Event::Transfer {
            trb_pointer: 0,
            residual_length: 0,
            completion_code: 1,
            endpoint_id: 1,
            slot_id: 1,
        },
        Event::CommandCompletion { command_trb_pointer: 0x1230, completion_code: 1, slot_id: 7 },
        Event::PortStatusChange { port_id: 255, completion_code: 1 },
        Event::NotSupport { trb_type: 0 },
        Event::NotSupport { trb_type: 63 },
    ];
    for event in events {
        assert_eq!(Event::decode(event.encode()), event);
        assert!(!event.encode().cycle_bit());
    }
}

#[test]
fn decoding_ignores_the_cycle_bit() {
    let event = Event::CommandCompletion { command_trb_pointer: 0x40, completion_code: 1, slot_id: 1 };
    assert_eq!(Event::decode(event.encode().with_cycle_bit(true)), event);
}
