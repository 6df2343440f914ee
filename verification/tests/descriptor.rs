use xhc_core::descriptor::parse_descriptors;
use xhc_core::descriptor::ConfigurationDescriptor;
use xhc_core::descriptor::Descriptor;
use xhc_core::descriptor::DescriptorSequence;
use xhc_core::descriptor::DeviceDescriptor;
use xhc_core::descriptor::EndpointDescriptor;
use xhc_core::descriptor::HidDescriptor;
use xhc_core::descriptor::InterfaceDescriptor;
use xhc_core::error::DeviceReason;
use xhc_core::error::PciError;
use xhc_core::hid::HidDeviceDescriptors;
use xhc_core::phase2::collect_hid_descriptors;
use xhc_core::phase2::filter_interface;
use xhc_core::phase2::filter_mouse_or_keyboard;
use xhc_core::phase2::map_hid_descriptors;

fn configuration() -> Vec<u8> {
    vec![9, 2, 34, 0, 1, 1, 0, 0xa0, 50]
}

fn interface(number: u8, protocol: u8) -> Vec<u8> {
    vec![9, 4, number, 0, 1, 3, 1, protocol, 0]
}

fn hid() -> Vec<u8> {
    vec![9, 33, 0x11, 0x01, 0, 1, 34, 52, 0]
}

fn endpoint(address: u8) -> Vec<u8> {
    vec![7, 5, address, 3, 8, 0, 10]
}

fn mouse_configuration() -> Vec<u8> {
    [configuration(), interface(0, 2), hid(), endpoint(0x81)].concat()
}

fn malformed(offset: usize) -> PciError {
    PciError::FailedOperateDevice(DeviceReason::MalformedDescriptor { offset })
}

fn mouse_interface() -> InterfaceDescriptor {
    InterfaceDescriptor {
        length: 9,
        descriptor_type: 4,
        interface_number: 0,
        alternate_setting: 0,
        num_endpoints: 1,
        interface_class: 3,
        interface_sub_class: 1,
        interface_protocol: 2,
        interface_id: 0,
    }
}

fn interrupt_in() -> EndpointDescriptor {
    EndpointDescriptor {
        length: 7,
        descriptor_type: 5,
        endpoint_address: 0x81,
        attributes: 3,
        max_packet_size: 8,
        interval: 10,
    }
}

#[test]
fn a_configuration_of_a_boot_mouse_is_read_record_by_record() {
    assert_eq!(
        parse_descriptors(&mouse_configuration()),
        Ok(vec![
            Descriptor::Configuration(ConfigurationDescriptor {
                length: 9,
                descriptor_type: 2,
                total_length: 34,
                num_interfaces: 1,
                configuration_value: 1,
                configuration_id: 0,
                attributes: 0xa0,
                max_power: 50,
            }),
            Descriptor::Interface(mouse_interface()),
            Descriptor::Hid(HidDescriptor {
                length: 9,
                descriptor_type: 33,
                hid_release: 0x0111,
                country_code: 0,
                num_descriptors: 1,
                class_descriptor_type: 34,
                class_descriptor_length: 52,
            }),
            Descriptor::Endpoint(interrupt_in()),
        ])
    );
}

#[test]
fn parsing_the_same_bytes_twice_gives_the_same_records() {
    let bytes = mouse_configuration();
    let first = parse_descriptors(&bytes);
    let second = parse_descriptors(&bytes);
    assert_eq!(first, second);
    let copy = bytes.clone();
    assert_eq!(parse_descriptors(&copy), first);
    let broken = &bytes[..bytes.len() - 1];
    assert_eq!(parse_descriptors(broken), parse_descriptors(broken));
    assert!(parse_descriptors(broken).is_err());
}

#[test]
fn a_device_descriptor_is_read_field_by_field() {
    let bytes =
        vec![18, 1, 0x00, 0x02, 0, 0, 0, 64, 0x6d, 0x04, 0x77, 0xc0, 0x00, 0x72, 1, 2, 0, 1];
    assert_eq!(
        parse_descriptors(&bytes),
        Ok(vec![Descriptor::Device(DeviceDescriptor {
            length: 18,
            descriptor_type: 1,
            usb_release: 0x0200,
            device_class: 0,
            device_sub_class: 0,
            device_protocol: 0,
            max_packet_size: 64,
            vendor_id: 0x046d,
            product_id: 0xc077,
            device_release: 0x7200,
            manufacturer: 1,
            product: 2,
            serial_number: 0,
            num_configurations: 1,
        })])
    );
}

#[test]
fn records_of_other_types_are_skipped_by_their_length() {
    let bytes = [vec![4, 0x24, 1, 2], endpoint(0x02), vec![2, 0xff]].concat();
    assert_eq!(
        parse_descriptors(&bytes),
        Ok(vec![
            Descriptor::Unknown { descriptor_type: 0x24, length: 4 },
            Descriptor::Endpoint(EndpointDescriptor {
                length: 7,
                descriptor_type: 5,
                endpoint_address: 0x02,
                attributes: 3,
                max_packet_size: 8,
                interval: 10,
            }),
            Descriptor::Unknown { descriptor_type: 0xff, length: 2 },
        ])
    );
}

#[test]
fn an_empty_buffer_holds_no_records() {
    assert_eq!(parse_descriptors(&[]), Ok(vec![]));
}

#[test]
fn malformed_records_are_reported_with_their_offset() {
    assert_eq!(parse_descriptors(&[9]), Err(malformed(0)));
    assert_eq!(parse_descriptors(&[0, 2]), Err(malformed(0)));
    assert_eq!(parse_descriptors(&[1, 2]), Err(malformed(0)));
    assert_eq!(parse_descriptors(&[8, 2, 0, 0, 0, 0, 0, 0]), Err(malformed(0)));
    assert_eq!(parse_descriptors(&[9, 2, 0, 0, 0, 0, 0, 0]), Err(malformed(0)));
    assert_eq!(parse_descriptors(&[6, 5, 0x81, 3, 8, 0]), Err(malformed(0)));
    let cut = [configuration(), vec![9, 4, 0, 0]].concat();
    assert_eq!(parse_descriptors(&cut), Err(malformed(9)));
    let short_hid = [configuration(), interface(0, 2), vec![6, 33, 0x11, 0x01, 0, 1]].concat();
    assert_eq!(parse_descriptors(&short_hid), Err(malformed(18)));
}

#[test]
fn a_longer_record_than_its_layout_is_read_and_skipped_whole() {
    let bytes = [vec![9, 5, 0x81, 3, 8, 0, 10, 0xaa, 0xbb], endpoint(0x02)].concat();
    let records = parse_descriptors(&bytes).unwrap();
    assert_eq!(records.len(), 2);
    assert_eq!(
        records[0],
        Descriptor::Endpoint(EndpointDescriptor {
            length: 9,
            descriptor_type: 5,
            endpoint_address: 0x81,
            attributes: 3,
            max_packet_size: 8,
            interval: 10,
        })
    );
}

#[test]
fn the_sequence_moves_forward_record_by_record() {
    let bytes = mouse_configuration();
    let mut sequence = DescriptorSequence::new(&bytes);
    assert!(matches!(sequence.next(), Some(Ok(Descriptor::Configuration(_)))));
    assert!(matches!(sequence.next(), Some(Ok(Descriptor::Interface(_)))));
    assert!(matches!(sequence.next(), Some(Ok(Descriptor::Hid(_)))));
    assert_eq!(sequence.next(), Some(Ok(Descriptor::Endpoint(interrupt_in()))));
    assert_eq!(sequence.next(), None);
    assert_eq!(sequence.next(), None);
}

#[test]
fn the_sequence_stops_after_a_malformed_record() {
    let bytes = [configuration(), vec![1, 4], endpoint(0x81)].concat();
    let mut sequence = DescriptorSequence::new(&bytes);
    assert!(matches!(sequence.next(), Some(Ok(Descriptor::Configuration(_)))));
    assert_eq!(sequence.next(), Some(Err(malformed(9))));
    assert_eq!(sequence.next(), None);
}

#[test]
fn collect_reads_what_is_left() {
    let bytes = mouse_configuration();
    let mut sequence = DescriptorSequence::new(&bytes);
    sequence.next();
    let rest = sequence.collect().unwrap();
    assert_eq!(rest.len(), 3);
    assert_eq!(rest[0], Descriptor::Interface(mouse_interface()));
    assert_eq!(sequence.collect(), Ok(vec![]));
}

#[test]
fn interfaces_of_mice_and_keyboards_are_told_by_class_subclass_and_protocol() {
    let mouse = mouse_interface();
    assert!(mouse.is_mouse());
    assert!(!mouse.is_keyboard());
    let keyboard = InterfaceDescriptor { interface_protocol: 1, ..mouse };
    assert!(keyboard.is_keyboard());
    assert!(!keyboard.is_mouse());
    let storage = InterfaceDescriptor { interface_class: 8, ..mouse };
    assert!(!storage.is_mouse() && !storage.is_keyboard());
    let report = InterfaceDescriptor { interface_sub_class: 0, ..mouse };
    assert!(!report.is_mouse() && !report.is_keyboard());
    let other = InterfaceDescriptor { interface_protocol: 0, ..mouse };
    assert!(!other.is_mouse() && !other.is_keyboard());
}

#[test]
fn endpoint_address_gives_number_direction_and_context_index() {
    let input = interrupt_in();
    assert_eq!(input.endpoint_number(), 1);
    assert!(input.is_in());
    assert_eq!(input.device_context_index(), 3);
    let output = EndpointDescriptor { endpoint_address: 0x02, ..input };
    assert_eq!(output.endpoint_number(), 2);
    assert!(!output.is_in());
    assert_eq!(output.device_context_index(), 4);
    let last = EndpointDescriptor { endpoint_address: 0x8f, ..input };
    assert_eq!(last.device_context_index(), 31);
}

#[test]
fn filter_interface_keeps_interfaces_with_their_index() {
    let records = parse_descriptors(&mouse_configuration()).unwrap();
    assert_eq!(filter_interface((0, &records[0])), None);
    assert_eq!(filter_interface((1, &records[1])), Some((1, mouse_interface())));
    assert_eq!(filter_interface((7, &records[1])), Some((7, mouse_interface())));
    assert_eq!(filter_interface((3, &records[3])), None);
}

#[test]
fn filter_mouse_or_keyboard_keeps_input_devices() {
    let mouse = mouse_interface();
    let keyboard = InterfaceDescriptor { interface_protocol: 1, ..mouse };
    let storage = InterfaceDescriptor { interface_class: 8, ..mouse };
    assert!(filter_mouse_or_keyboard((0, &mouse)));
    assert!(filter_mouse_or_keyboard((0, &keyboard)));
    assert!(!filter_mouse_or_keyboard((0, &storage)));
}

#[test]
fn map_hid_descriptors_pairs_an_interface_with_the_endpoint_two_records_on() {
    let records = parse_descriptors(&mouse_configuration()).unwrap();
    assert_eq!(
        map_hid_descriptors(1, mouse_interface(), &records),
        Some(HidDeviceDescriptors::new(mouse_interface(), interrupt_in()))
    );
    assert_eq!(map_hid_descriptors(2, mouse_interface(), &records), None);
    assert_eq!(map_hid_descriptors(3, mouse_interface(), &records), None);
    assert_eq!(map_hid_descriptors(usize::MAX, mouse_interface(), &records), None);
    assert_eq!(map_hid_descriptors(0, mouse_interface(), &[]), None);
}

#[test]
fn map_hid_descriptors_does_not_take_the_record_right_behind_the_interface() {
    let bytes = [configuration(), interface(0, 2), endpoint(0x81), endpoint(0x82)].concat();
    let records = parse_descriptors(&bytes).unwrap();
    let pair = map_hid_descriptors(1, mouse_interface(), &records).unwrap();
    assert_eq!(pair.endpoint().endpoint_address, 0x82);
}

#[test]
fn map_hid_descriptors_looks_past_records_that_are_no_endpoints() {
    let bytes = [configuration(), interface(0, 2), hid(), hid(), vec![2, 0x30], endpoint(0x83)]
        .concat();
    let records = parse_descriptors(&bytes).unwrap();
    let pair = map_hid_descriptors(1, mouse_interface(), &records).unwrap();
    assert_eq!(pair.endpoint().endpoint_address, 0x83);
    assert_eq!(pair.interface(), mouse_interface());
}

#[test]
fn collect_hid_descriptors_finds_every_input_interface() {
    let bytes = [
        configuration(),
        interface(0, 1),
        hid(),
        endpoint(0x81),
        interface(1, 2),
        hid(),
        endpoint(0x82),
        vec![9, 4, 2, 0, 1, 8, 6, 80, 0],
        endpoint(0x83),
    ]
    .concat();
    let records = parse_descriptors(&bytes).unwrap();
    let pairs = collect_hid_descriptors(&records);
    assert_eq!(pairs.len(), 2);
    assert_eq!(pairs[0].interface().interface_number, 0);
    assert!(pairs[0].interface().is_keyboard());
    assert_eq!(pairs[0].endpoint().endpoint_address, 0x81);
    assert_eq!(pairs[1].interface().interface_number, 1);
    assert!(pairs[1].interface().is_mouse());
    assert_eq!(pairs[1].endpoint().endpoint_address, 0x82);
}

#[test]
fn collect_hid_descriptors_leaves_out_interfaces_without_an_endpoint() {
    let bytes = [configuration(), interface(0, 2), hid()].concat();
    let records = parse_descriptors(&bytes).unwrap();
    assert_eq!(collect_hid_descriptors(&records), vec![]);
    assert_eq!(collect_hid_descriptors(&[]), vec![]);
}
