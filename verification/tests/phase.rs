use xhc_core::control_pipe::ControlPipe;
use xhc_core::control_pipe::Request;
use xhc_core::device_slot::DeviceSlot;
use xhc_core::device_slot::InputContext;
use xhc_core::error::DeviceReason;
use xhc_core::error::PciError;
use xhc_core::error::RingReason;
use xhc_core::hid::KeyboardDriver;
use xhc_core::hid::MouseDriver;
use xhc_core::phase::DevicePhase;
use xhc_core::phase::InitStatus;
use xhc_core::phase::Phase;
use xhc_core::phase1::Phase1;
use xhc_core::phase2::set_configuration;
use xhc_core::phase2::Phase2;
use xhc_core::phase3::Phase3;
use xhc_core::registers::capability::CapabilityRegisters;
use xhc_core::registers::capability::MemoryMappedAddr;
use xhc_core::registers::doorbell::Doorbell;
use xhc_core::registers::doorbell::DoorbellRegistersOffset;
use xhc_core::ring::Ring;
use xhc_core::simulated::SimulatedRegisters;
use xhc_core::transfer::DataStage;
use xhc_core::transfer::TargetEvent;
use xhc_core::transfer::TransferEvent;
use xhc_core::trb::Event;
use xhc_core::trb::Trb;

const RING: u64 = 0x2000;
const DATA: u64 = 0x3000;

fn memory() -> SimulatedRegisters {
    let mut words = vec![0u32; 0x1000];
    words[0] = 0x20;
    words[5] = 0x300;
    words[6] = 0x200;
    SimulatedRegisters::new(0x1000, words, true)
}

fn doorbell(mem: &mut SimulatedRegisters, slot: u8) -> Doorbell {
    let mmio = MemoryMappedAddr::new(0x1000).unwrap();
    let capability = CapabilityRegisters::new(mem, mmio).unwrap();
    Doorbell::new(DoorbellRegistersOffset::new(mem, mmio, &capability.db_off()).unwrap(), slot)
}

fn slot(mem: &mut SimulatedRegisters, capacity: usize) -> DeviceSlot {
    let doorbell = doorbell(mem, 1);
    DeviceSlot::new(1, 2, doorbell, Ring::new(RING, capacity).unwrap(), DATA)
}

fn boot_mouse() -> Vec<u8> {
    [
        vec![9, 2, 34, 0, 1, 7, 0, 0xa0, 50],
        vec![9, 4, 5, 0, 1, 3, 1, 2, 0],
        vec![9, 33, 0x11, 0x01, 0, 1, 34, 52, 0],
        vec![7, 5, 0x81, 3, 8, 0, 10],
    ]
    .concat()
}

fn completed(pointer: u64, residual: u32) -> TransferEvent {
    TransferEvent {
        trb_pointer: pointer,
        trb_transfer_length: residual,
        completion_code: 13,
        endpoint_id: 1,
        slot_id: 1,
    }
}

fn data_stage(length: u32) -> TargetEvent {
    TargetEvent::DataStage(DataStage { data_buffer_pointer: DATA, trb_transfer_length: length })
}

fn rank(phase: &DevicePhase) -> u8 {
    match phase {
        DevicePhase::Addressing(_) => 0,
        DevicePhase::Configuration(_) => 1,
        DevicePhase::Operational(_) => 2,
    }
}

#[test]
fn init_status_says_what_it_was_made_with() {
    assert!(InitStatus::new(true).is_initialised());
    assert!(!InitStatus::new(false).is_initialised());
    assert!(InitStatus::initialized().is_initialised());
    assert!(!InitStatus::not().is_initialised());
    assert_eq!(InitStatus::not(), InitStatus::new(false));
    assert_eq!(InitStatus::initialized(), InitStatus::new(true));
    assert_ne!(InitStatus::initialized(), InitStatus::not());
}

#[test]
fn a_device_goes_from_addressing_through_configuration_to_operation() {
    let mut mem = memory();
    let mut slot = slot(&mut mem, 32);
    let mut phase = DevicePhase::Addressing(Phase1::new(MouseDriver::new(), KeyboardDriver::new()));
    assert_eq!(rank(&phase), 0);
    assert_eq!(phase.interface_nums(), None);

    let first = match &phase {
        DevicePhase::Addressing(addressing) => {
            addressing.on_address_device_completed(&mut slot, &mut mem).unwrap()
        }
        _ => unreachable!(),
    };
    assert!(!first.status.is_initialised());
    assert_eq!(first.report, None);
    phase = first.next.unwrap();
    assert_eq!(rank(&phase), 1);
    assert_eq!(phase.interface_nums(), None);

    slot.load_data(&boot_mouse());
    let second = phase
        .on_transfer_event_received(&mut slot, &mut mem, completed(RING + 16, 256 - 34), data_stage(256))
        .unwrap();
    assert!(!second.status.is_initialised());
    assert_eq!(second.report, None);
    phase = second.next.unwrap();
    assert_eq!(rank(&phase), 2);
    assert_eq!(phase.interface_nums(), Some(vec![5]));
    assert_eq!(slot.input_context, InputContext { root_port: 2, config_value: 7 });

    let third = phase
        .on_transfer_event_received(&mut slot, &mut mem, completed(RING + 64, 0), TargetEvent::StatusStage)
        .unwrap();
    assert!(third.status.is_initialised());
    assert!(third.next.is_none());
    assert_eq!(third.report, None);
    assert_eq!(rank(&phase), 2);
    assert_eq!(phase.interface_nums(), Some(vec![5]));
}

#[test]
fn the_same_events_give_the_same_phases() {
    let run = || {
        let mut mem = memory();
        let mut slot = slot(&mut mem, 32);
        let addressing = Phase1::new(MouseDriver::new(), KeyboardDriver::new());
        let mut phase = addressing.on_address_device_completed(&mut slot, &mut mem).unwrap().next.unwrap();
        slot.load_data(&boot_mouse());
        let next = phase
            .on_transfer_event_received(
                &mut slot,
                &mut mem,
                completed(RING + 16, 256 - 34),
                data_stage(256),
            )
            .unwrap()
            .next
            .unwrap();
        (rank(&next), next.interface_nums(), slot.input_context, mem.word(0x2030), mem.word(0x203c))
    };
    assert_eq!(run(), run());
}

#[test]
fn addressing_asks_for_the_configuration_descriptor() {
    let mut mem = memory();
    let mut slot = slot(&mut mem, 32);
    let addressing = Phase1::new(MouseDriver::new(), KeyboardDriver::new());
    addressing.on_address_device_completed(&mut slot, &mut mem).unwrap();
    assert_eq!(
        slot.default_control_pipe.trb_at(RING),
        Some(Trb { parameter: 0x0100_0000_0200_0680, status: 8, control: 0x0003_0841 })
    );
    assert_eq!(
        slot.default_control_pipe.trb_at(RING + 16),
        Some(Trb::data_stage(DATA, 256, true, true).with_cycle_bit(true))
    );
    assert_eq!(
        slot.default_control_pipe.trb_at(RING + 32),
        Some(Trb::status_stage(false, false).with_cycle_bit(true))
    );
    assert_eq!(mem.word(0x1304), 1);
    assert_eq!(mem.word(0x2000 + 12), 0x0003_0841);
    assert_eq!(mem.word(0x2010), DATA as u32);
}

#[test]
fn addressing_needs_room_for_three_blocks() {
    let mut mem = memory();
    let mut slot = slot(&mut mem, 3);
    let addressing = Phase1::new(MouseDriver::new(), KeyboardDriver::new());
    assert_eq!(
        addressing.on_address_device_completed(&mut slot, &mut mem).err(),
        Some(PciError::FailedOperateRing(RingReason::Full))
    );
    assert_eq!(slot.default_control_pipe.trb_at(RING), Some(Trb { parameter: 0, status: 0, control: 0 }));
    assert_eq!(mem.word(0x1304), 0);
}

#[test]
fn addressing_refuses_transfer_events() {
    let mut mem = memory();
    let mut slot = slot(&mut mem, 32);
    let mut addressing = Phase1::new(MouseDriver::new(), KeyboardDriver::new());
    assert_eq!(
        addressing
            .on_transfer_event_received(&mut slot, &mut mem, completed(RING, 0), data_stage(256))
            .err(),
        Some(PciError::FailedOperateDevice(DeviceReason::UnexpectedTransfer))
    );
    assert_eq!(addressing.interface_nums(), None);
}

#[test]
fn configuration_refuses_what_is_no_data_stage() {
    let mut mem = memory();
    let mut slot = slot(&mut mem, 32);
    slot.load_data(&boot_mouse());
    let mut phase = Phase2::new(MouseDriver::new(), KeyboardDriver::new());
    for target in [
        TargetEvent::StatusStage,
        TargetEvent::Setup,
        TargetEvent::Normal(DataStage { data_buffer_pointer: DATA, trb_transfer_length: 256 }),
        TargetEvent::Unsupported { trb_type: 6 },
    ] {
        assert_eq!(
            phase
                .on_transfer_event_received(&mut slot, &mut mem, completed(RING, 256 - 34), target)
                .err(),
            Some(PciError::FailedOperateDevice(DeviceReason::UnexpectedTransfer))
        );
    }
    assert_eq!(slot.input_context.config_value, 0);
    assert_eq!(phase.interface_nums(), None);
}

#[test]
fn configuration_refuses_lengths_that_cannot_be() {
    let mut mem = memory();
    let mut slot = slot(&mut mem, 32);
    slot.load_data(&boot_mouse());
    let mut phase = Phase2::new(MouseDriver::new(), KeyboardDriver::new());
    let invalid = Some(PciError::FailedOperateDevice(DeviceReason::InvalidTransferLength));
    assert_eq!(
        phase
            .on_transfer_event_received(&mut slot, &mut mem, completed(RING, 257), data_stage(256))
            .err(),
        invalid
    );
    assert_eq!(
        phase
            .on_transfer_event_received(&mut slot, &mut mem, completed(RING, 0), data_stage(257))
            .err(),
        invalid
    );
    assert_eq!(slot.input_context.config_value, 0);
}

#[test]
fn configuration_reads_only_the_bytes_that_were_transferred() {
    let mut mem = memory();
    let mut slot = slot(&mut mem, 32);
    let mut bytes = boot_mouse();
    bytes.extend([1, 0xff, 0xff]);
    slot.load_data(&bytes);
    let mut phase = Phase2::new(MouseDriver::new(), KeyboardDriver::new());
    assert!(phase
        .on_transfer_event_received(&mut slot, &mut mem, completed(RING, 256 - 34), data_stage(256))
        .is_ok());
    let mut again = Phase2::new(MouseDriver::new(), KeyboardDriver::new());
    assert_eq!(
        again
            .on_transfer_event_received(&mut slot, &mut mem, completed(RING, 256 - 36), data_stage(256))
            .err(),
        Some(PciError::FailedOperateDevice(DeviceReason::MalformedDescriptor { offset: 34 }))
    );
}

#[test]
fn configuration_of_nothing_is_no_configuration() {
    let mut mem = memory();
    let mut slot = slot(&mut mem, 32);
    let mut phase = Phase2::new(MouseDriver::new(), KeyboardDriver::new());
    assert_eq!(
        phase
            .on_transfer_event_received(&mut slot, &mut mem, completed(RING, 256), data_stage(256))
            .err(),
        Some(PciError::FailedOperateDevice(DeviceReason::NotConfigurationDescriptor))
    );
}

#[test]
fn configuration_needs_room_for_the_request_that_selects_it() {
    let mut mem = memory();
    let mut slot = slot(&mut mem, 4);
    let request = Request::get_descriptor(2, 0, 256);
    slot.default_control_pipe.control_in_with_data(&mut mem, request, DATA, 256).unwrap();
    slot.default_control_pipe.acknowledge(RING).unwrap();
    slot.load_data(&boot_mouse());
    let mut phase = Phase2::new(MouseDriver::new(), KeyboardDriver::new());
    assert_eq!(
        phase
            .on_transfer_event_received(&mut slot, &mut mem, completed(RING + 16, 256 - 34), data_stage(256))
            .err(),
        Some(PciError::FailedOperateRing(RingReason::Full))
    );
    assert_eq!(slot.input_context.config_value, 0);
}

#[test]
fn set_configuration_starts_a_transfer_without_data() {
    let mut mem = memory();
    let bell = doorbell(&mut mem, 3);
    let mut pipe = ControlPipe::new(bell, Ring::new(RING, 8).unwrap());
    assert_eq!(set_configuration(0x0102, &mut mem, &mut pipe), Ok(()));
    assert_eq!(
        pipe.trb_at(RING),
        Some(Trb { parameter: 0x0000_0000_0102_0900, status: 8, control: 0x0841 })
    );
    assert_eq!(pipe.trb_at(RING + 16), Some(Trb::status_stage(true, true).with_cycle_bit(true)));
    assert_eq!(mem.word(0x130c), 1);
    assert_eq!(pipe.doorbell(), bell);
}

#[test]
fn operation_without_interfaces_has_no_interface_numbers() {
    let phase = Phase3::new(MouseDriver::new(), KeyboardDriver::new(), vec![]);
    assert_eq!(phase.interface_nums(), Some(vec![]));
}

#[test]
fn operation_refuses_reports_of_endpoints_without_a_pipe() {
    let mut mem = memory();
    let mut slot = slot(&mut mem, 32);
    let mut phase = Phase3::new(MouseDriver::new(), KeyboardDriver::new(), vec![]);
    let target = TargetEvent::Normal(DataStage { data_buffer_pointer: DATA, trb_transfer_length: 8 });
    let event = TransferEvent { endpoint_id: 3, ..completed(RING, 4) };
    assert_eq!(
        phase.on_transfer_event_received(&mut slot, &mut mem, event, target).err(),
        Some(PciError::FailedOperateDevice(DeviceReason::UnexpectedTransfer))
    );
    assert_eq!(
        phase
            .on_transfer_event_received(&mut slot, &mut mem, completed(RING, 4), data_stage(8))
            .err(),
        Some(PciError::FailedOperateDevice(DeviceReason::UnexpectedTransfer))
    );
}

#[test]
fn transfer_events_and_targets_are_taken_from_their_blocks() {
    let event = Event::Transfer {
        trb_pointer: 0x40,
        residual_length: 3,
        completion_code: 1,
        endpoint_id: 2,
        slot_id: 9,
    };
    assert_eq!(
        TransferEvent::from_event(event),
        Some(TransferEvent {
            trb_pointer: 0x40,
            trb_transfer_length: 3,
            completion_code: 1,
            endpoint_id: 2,
            slot_id: 9
        })
    );
    assert_eq!(TransferEvent::from_event(Event::NotSupport { trb_type: 1 }), None);
    let stage = DataStage { data_buffer_pointer: 0x5000, trb_transfer_length: 256 };
    assert_eq!(TargetEvent::from_trb(Trb::data_stage(0x5000, 256, true, true)), TargetEvent::DataStage(stage));
    assert_eq!(TargetEvent::from_trb(Trb::normal(0x5000, 256)), TargetEvent::Normal(stage));
    assert_eq!(TargetEvent::from_trb(Trb::status_stage(true, true)), TargetEvent::StatusStage);
    assert_eq!(TargetEvent::from_trb(Trb::link(0, true)), TargetEvent::Unsupported { trb_type: 6 });
    assert_eq!(TargetEvent::DataStage(stage).data_stage(), Ok(stage));
    assert_eq!(
        TargetEvent::Normal(stage).data_stage(),
        Err(PciError::FailedOperateDevice(DeviceReason::UnexpectedTransfer))
    );
}

#[test]
fn requests_have_the_fields_of_the_standard() {
    let configuration = Request::configuration(3).setup;
    assert_eq!(
        (
            configuration.request_type,
            configuration.request,
            configuration.value,
            configuration.index,
            configuration.length
        ),
        (0, 9, 3, 0, 0)
    );
    let descriptor = Request::get_descriptor(2, 1, 64).setup;
    assert_eq!(
        (descriptor.request_type, descriptor.request, descriptor.value, descriptor.index, descriptor.length),
        (0x80, 6, 0x0201, 0, 64)
    );
    let protocol = Request::set_protocol(2, 0).setup;
    assert_eq!(
        (protocol.request_type, protocol.request, protocol.value, protocol.index, protocol.length),
        (0x21, 11, 0, 2, 0)
    );
}

#[test]
fn control_transfers_are_enqueued_whole_or_not_at_all() {
    let mut mem = memory();
    let bell = doorbell(&mut mem, 1);
    let mut pipe = ControlPipe::new(bell, Ring::new(RING, 5).unwrap());
    let request = Request::get_descriptor(1, 0, 18);
    assert_eq!(pipe.control_in_with_data(&mut mem, request, DATA, 18), Ok(RING + 16));
    assert_eq!(mem.word(0x1304), 1);
    assert_eq!(
        pipe.control_in_with_data(&mut mem, request, DATA, 18),
        Err(PciError::FailedOperateRing(RingReason::Full))
    );
    assert_eq!(
        pipe.control_out_no_data(&mut mem, Request::configuration(1)),
        Err(PciError::FailedOperateRing(RingReason::Full))
    );
    assert_eq!(pipe.trb_at(RING + 48), Some(Trb { parameter: 0, status: 0, control: 0 }));
    assert_eq!(pipe.acknowledge(RING + 16), Ok(2));
    assert_eq!(pipe.control_out_no_data(&mut mem, Request::configuration(1)), Ok(RING));
    assert_eq!(pipe.trb_at(RING + 48).unwrap().trb_type(), 2);
    assert_eq!(pipe.trb_at(RING).unwrap(), Trb::status_stage(true, true).with_cycle_bit(false));
}

#[test]
fn control_transfer_towards_the_device_ends_with_the_status_stage() {
    let mut mem = memory();
    let bell = doorbell(&mut mem, 1);
    let mut pipe = ControlPipe::new(bell, Ring::new(RING, 8).unwrap());
    let request = Request::set_protocol(0, 0);
    assert_eq!(pipe.control_out_with_data(&mut mem, request, DATA, 4), Ok(RING + 32));
    assert_eq!(pipe.trb_at(RING).unwrap().control, 0x0002_0841);
    assert_eq!(
        pipe.trb_at(RING + 16),
        Some(Trb::data_stage(DATA, 4, false, false).with_cycle_bit(true))
    );
    assert_eq!(pipe.trb_at(RING + 32), Some(Trb::status_stage(true, true).with_cycle_bit(true)));
    assert_eq!(mem.word(0x1304), 1);
}

#[test]
fn load_data_takes_over_the_first_bytes_of_the_buffer() {
    let mut mem = memory();
    let mut slot = slot(&mut mem, 32);
    assert_eq!(slot.data_buff, vec![0u8; 256]);
    slot.load_data(&[1, 2, 3]);
    assert_eq!(&slot.data_buff[..4], &[1, 2, 3, 0]);
    slot.load_data(&[9]);
    assert_eq!(&slot.data_buff[..4], &[9, 2, 3, 0]);
    slot.load_data(&vec![7u8; 300]);
    assert_eq!(slot.data_buff, vec![7u8; 256]);
    assert_eq!(slot.slot_id, 1);
    assert_eq!(slot.data_buff_addr, DATA);
}
