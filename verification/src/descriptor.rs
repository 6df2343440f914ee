use vstd::prelude::*;

use crate::error::DeviceReason;
use crate::error::PciError;
use crate::error::PciResult;

verus! {

pub const DESCRIPTOR_TYPE_DEVICE: u8 = 1;

pub const DESCRIPTOR_TYPE_CONFIGURATION: u8 = 2;

pub const DESCRIPTOR_TYPE_INTERFACE: u8 = 4;

pub const DESCRIPTOR_TYPE_ENDPOINT: u8 = 5;

pub const DESCRIPTOR_TYPE_HID: u8 = 33;

/// The interface class of human interface devices.
pub const CLASS_HID: u8 = 3;

/// The interface subclass of devices that speak the boot protocol.
pub const SUBCLASS_BOOT: u8 = 1;

pub const PROTOCOL_KEYBOARD: u8 = 1;

pub const PROTOCOL_MOUSE: u8 = 2;

/// The device descriptor, 18 bytes long.
#[derive(Debug, Clone, Copy, PartialEq, Eq, Structural)]
pub struct DeviceDescriptor {
    pub length: u8,
    pub descriptor_type: u8,
    pub usb_release: u16,
    pub device_class: u8,
    pub device_sub_class: u8,
    pub device_protocol: u8,
    pub max_packet_size: u8,
    pub vendor_id: u16,
    pub product_id: u16,
    pub device_release: u16,
    pub manufacturer: u8,
    pub product: u8,
    pub serial_number: u8,
    pub num_configurations: u8,
}

/// The configuration descriptor, 9 bytes long.
#[derive(Debug, Clone, Copy, PartialEq, Eq, Structural)]
pub struct ConfigurationDescriptor {
    pub length: u8,
    pub descriptor_type: u8,
    pub total_length: u16,
    pub num_interfaces: u8,
    pub configuration_value: u8,
    pub configuration_id: u8,
    pub attributes: u8,
    pub max_power: u8,
}

/// The interface descriptor, 9 bytes long.
#[derive(Debug, Clone, Copy, PartialEq, Eq, Structural)]
pub struct InterfaceDescriptor {
    pub length: u8,
    pub descriptor_type: u8,
    pub interface_number: u8,
    pub alternate_setting: u8,
    pub num_endpoints: u8,
    pub interface_class: u8,
    pub interface_sub_class: u8,
    pub interface_protocol: u8,
    pub interface_id: u8,
}

/// The endpoint descriptor, 7 bytes long.
#[derive(Debug, Clone, Copy, PartialEq, Eq, Structural)]
pub struct EndpointDescriptor {
    pub length: u8,
    pub descriptor_type: u8,
    pub endpoint_address: u8,
    pub attributes: u8,
    pub max_packet_size: u16,
    pub interval: u8,
}

/// The HID descriptor with its first class descriptor, 9 bytes long.
#[derive(Debug, Clone, Copy, PartialEq, Eq, Structural)]
pub struct HidDescriptor {
    pub length: u8,
    pub descriptor_type: u8,
    pub hid_release: u16,
    pub country_code: u8,
    pub num_descriptors: u8,
    pub class_descriptor_type: u8,
    pub class_descriptor_length: u16,
}

/// One record of a descriptor buffer.
#[derive(Debug, Clone, Copy, PartialEq, Eq, Structural)]
pub enum Descriptor {
    Device(DeviceDescriptor),
    Configuration(ConfigurationDescriptor),
    Interface(InterfaceDescriptor),
    Endpoint(EndpointDescriptor),
    Hid(HidDescriptor),
    /// A record of a type the driver does not read.
    Unknown { descriptor_type: u8, length: u8 },
}

impl InterfaceDescriptor {
    /// The interface is that of a mouse that speaks the boot protocol.
    pub open spec fn spec_is_mouse(&self) -> bool {
        self.interface_class == 3 && self.interface_sub_class == 1 && self.interface_protocol == 2
    }

    /// The interface is that of a keyboard that speaks the boot protocol.
    pub open spec fn spec_is_keyboard(&self) -> bool {
        self.interface_class == 3 && self.interface_sub_class == 1 && self.interface_protocol == 1
    }

    #[verifier::when_used_as_spec(spec_is_mouse)]
    pub fn is_mouse(&self) -> (mouse: bool)
        ensures
            mouse == self.spec_is_mouse(),
    {
        self.interface_class == CLASS_HID && self.interface_sub_class == SUBCLASS_BOOT
            && self.interface_protocol == PROTOCOL_MOUSE
    }

    #[verifier::when_used_as_spec(spec_is_keyboard)]
    pub fn is_keyboard(&self) -> (keyboard: bool)
        ensures
            keyboard == self.spec_is_keyboard(),
    {
        self.interface_class == CLASS_HID && self.interface_sub_class == SUBCLASS_BOOT
            && self.interface_protocol == PROTOCOL_KEYBOARD
    }
}

impl EndpointDescriptor {
    /// The number of the endpoint, which is held in the four low bits of its
    /// address.
    pub open spec fn spec_endpoint_number(&self) -> u8 {
        self.endpoint_address % 16
    }

    /// The endpoint carries data from the device to the host.
    pub open spec fn spec_is_in(&self) -> bool {
        self.endpoint_address >= 128
    }

    /// The index of the endpoint's context in a device context: twice the
    /// endpoint number, plus one for an endpoint towards the host.
    pub open spec fn spec_device_context_index(&self) -> u8 {
        (2 * self.spec_endpoint_number() + if self.spec_is_in() {
            1int
        } else {
            0int
        }) as u8
    }

    #[verifier::when_used_as_spec(spec_endpoint_number)]
    pub fn endpoint_number(&self) -> (number: u8)
        ensures
            number == self.spec_endpoint_number(),
    {
        self.endpoint_address % 16
    }

    #[verifier::when_used_as_spec(spec_is_in)]
    pub fn is_in(&self) -> (towards_host: bool)
        ensures
            towards_host == self.spec_is_in(),
    {
        self.endpoint_address >= 128
    }

    #[verifier::when_used_as_spec(spec_device_context_index)]
    pub fn device_context_index(&self) -> (index: u8)
        ensures
            index == self.spec_device_context_index(),
            index <= 31,
    {
        2 * self.endpoint_number() + if self.is_in() {
            1
        } else {
            0
        }
    }
}

impl Descriptor {
    /// The interface descriptor in this record, if it is one.
    pub open spec fn spec_interface(&self) -> Option<InterfaceDescriptor> {
        match self {
            Descriptor::Interface(interface) => Some(*interface),
            _ => None,
        }
    }

    /// The endpoint descriptor in this record, if it is one.
    pub open spec fn spec_endpoint(&self) -> Option<EndpointDescriptor> {
        match self {
            Descriptor::Endpoint(endpoint) => Some(*endpoint),
            _ => None,
        }
    }

    /// The configuration descriptor in this record, if it is one.
    pub open spec fn spec_configuration(&self) -> Option<ConfigurationDescriptor> {
        match self {
            Descriptor::Configuration(configuration) => Some(*configuration),
            _ => None,
        }
    }

    #[verifier::when_used_as_spec(spec_interface)]
    pub fn interface(&self) -> (interface: Option<InterfaceDescriptor>)
        ensures
            interface == self.spec_interface(),
    {
        match self {
            Descriptor::Interface(interface) => Some(*interface),
            _ => None,
        }
    }

    #[verifier::when_used_as_spec(spec_endpoint)]
    pub fn endpoint(&self) -> (endpoint: Option<EndpointDescriptor>)
        ensures
            endpoint == self.spec_endpoint(),
    {
        match self {
            Descriptor::Endpoint(endpoint) => Some(*endpoint),
            _ => None,
        }
    }

    #[verifier::when_used_as_spec(spec_configuration)]
    pub fn configuration(&self) -> (configuration: Option<ConfigurationDescriptor>)
        ensures
            configuration == self.spec_configuration(),
    {
        match self {
            Descriptor::Configuration(configuration) => Some(*configuration),
            _ => None,
        }
    }
}

/// The 16-bit number whose low byte is `low` and whose high byte is `high`.
pub open spec fn le16(low: u8, high: u8) -> u16 {
    (low + 256 * high) as u16
}

/// The number of bytes a record of the type `descriptor_type` has at
/// least: the size of its layout, or of the header for a type the driver
/// does not read.
pub open spec fn min_length(descriptor_type: u8) -> int {
    if descriptor_type == 1 {
        18
    } else if descriptor_type == 2 {
        9
    } else if descriptor_type == 4 {
        9
    } else if descriptor_type == 5 {
        7
    } else if descriptor_type == 33 {
        9
    } else {
        2
    }
}

/// The record has a whole header at `at`, is as long as its type asks
/// for, and ends inside the buffer.
pub open spec fn record_at(buf: Seq<u8>, at: int) -> bool {
    &&& 0 <= at
    &&& at + 2 <= buf.len()
    &&& min_length(buf[at + 1]) <= buf[at]
    &&& at + buf[at] <= buf.len()
}

/// The record that begins at `at`, read field by field; multi-byte fields
/// are little-endian.
pub open spec fn descriptor_at(buf: Seq<u8>, at: int) -> Descriptor {
    let length = buf[at];
    let descriptor_type = buf[at + 1];
    if descriptor_type == 1 {
        Descriptor::Device(
            DeviceDescriptor {
                length,
                descriptor_type,
                usb_release: le16(buf[at + 2], buf[at + 3]),
                device_class: buf[at + 4],
                device_sub_class: buf[at + 5],
                device_protocol: buf[at + 6],
                max_packet_size: buf[at + 7],
                vendor_id: le16(buf[at + 8], buf[at + 9]),
                product_id: le16(buf[at + 10], buf[at + 11]),
                device_release: le16(buf[at + 12], buf[at + 13]),
                manufacturer: buf[at + 14],
                product: buf[at + 15],
                serial_number: buf[at + 16],
                num_configurations: buf[at + 17],
            },
        )
    } else if descriptor_type == 2 {
        Descriptor::Configuration(
            ConfigurationDescriptor {
                length,
                descriptor_type,
                total_length: le16(buf[at + 2], buf[at + 3]),
                num_interfaces: buf[at + 4],
                configuration_value: buf[at + 5],
                configuration_id: buf[at + 6],
                attributes: buf[at + 7],
                max_power: buf[at + 8],
            },
        )
    } else if descriptor_type == 4 {
        Descriptor::Interface(
            InterfaceDescriptor {
                length,
                descriptor_type,
                interface_number: buf[at + 2],
                alternate_setting: buf[at + 3],
                num_endpoints: buf[at + 4],
                interface_class: buf[at + 5],
                interface_sub_class: buf[at + 6],
                interface_protocol: buf[at + 7],
                interface_id: buf[at + 8],
            },
        )
    } else if descriptor_type == 5 {
        Descriptor::Endpoint(
            EndpointDescriptor {
                length,
                descriptor_type,
                endpoint_address: buf[at + 2],
                attributes: buf[at + 3],
                max_packet_size: le16(buf[at + 4], buf[at + 5]),
                interval: buf[at + 6],
            },
        )
    } else if descriptor_type == 33 {
        Descriptor::Hid(
            HidDescriptor {
                length,
                descriptor_type,
                hid_release: le16(buf[at + 2], buf[at + 3]),
                country_code: buf[at + 4],
                num_descriptors: buf[at + 5],
                class_descriptor_type: buf[at + 6],
                class_descriptor_length: le16(buf[at + 7], buf[at + 8]),
            },
        )
    } else {
        Descriptor::Unknown { descriptor_type, length }
    }
}

/// The error for a record that is cut short or too short for its type.
pub open spec fn malformed(offset: usize) -> PciError {
    PciError::FailedOperateDevice(DeviceReason::MalformedDescriptor { offset })
}

/// `first` put before the records of `rest`, or the error of `rest`.
pub open spec fn prepend(first: Seq<Descriptor>, rest: PciResult<Seq<Descriptor>>) -> PciResult<
    Seq<Descriptor>,
> {
    match rest {
        Ok(records) => Ok(first + records),
        Err(e) => Err(e),
    }
}

/// The records of `buf` from the offset `at` to its end, in the order in
/// which they lie there, or the error for the first record that is
/// malformed. Each record begins where the one before it ends.
pub open spec fn descriptors_from(buf: Seq<u8>, at: int) -> PciResult<Seq<Descriptor>>
    decreases buf.len() - at,
{
    if at >= buf.len() || at < 0 {
        Ok(Seq::empty())
    } else if !record_at(buf, at) {
        Err(malformed(at as usize))
    } else {
        prepend(seq![descriptor_at(buf, at)], descriptors_from(buf, at + buf[at]))
    }
}

/// The records of the whole buffer.
pub open spec fn descriptors_of(buf: Seq<u8>) -> PciResult<Seq<Descriptor>> {
    descriptors_from(buf, 0)
}

fn read_u16(buf: &[u8], at: usize) -> (value: u16)
    requires
        at + 1 < buf@.len(),
    ensures
        value == le16(buf@[at as int], buf@[at + 1]),
{
    buf[at] as u16 + 256 * (buf[at + 1] as u16)
}

fn read_descriptor(buf: &[u8], at: usize) -> (descriptor: Descriptor)
    requires
        record_at(buf@, at as int),
    ensures
        descriptor == descriptor_at(buf@, at as int),
{
    let length = buf[at];
    let descriptor_type = buf[at + 1];
    if descriptor_type == DESCRIPTOR_TYPE_DEVICE {
        Descriptor::Device(
            DeviceDescriptor {
                length,
                descriptor_type,
                usb_release: read_u16(buf, at + 2),
                device_class: buf[at + 4],
                device_sub_class: buf[at + 5],
                device_protocol: buf[at + 6],
                max_packet_size: buf[at + 7],
                vendor_id: read_u16(buf, at + 8),
                product_id: read_u16(buf, at + 10),
                device_release: read_u16(buf, at + 12),
                manufacturer: buf[at + 14],
                product: buf[at + 15],
                serial_number: buf[at + 16],
                num_configurations: buf[at + 17],
            },
        )
    } else if descriptor_type == DESCRIPTOR_TYPE_CONFIGURATION {
        Descriptor::Configuration(
            ConfigurationDescriptor {
                length,
                descriptor_type,
                total_length: read_u16(buf, at + 2),
                num_interfaces: buf[at + 4],
                configuration_value: buf[at + 5],
                configuration_id: buf[at + 6],
                attributes: buf[at + 7],
                max_power: buf[at + 8],
            },
        )
    } else if descriptor_type == DESCRIPTOR_TYPE_INTERFACE {
        Descriptor::Interface(
            InterfaceDescriptor {
                length,
                descriptor_type,
                interface_number: buf[at + 2],
                alternate_setting: buf[at + 3],
                num_endpoints: buf[at + 4],
                interface_class: buf[at + 5],
                interface_sub_class: buf[at + 6],
                interface_protocol: buf[at + 7],
                interface_id: buf[at + 8],
            },
        )
    } else if descriptor_type == DESCRIPTOR_TYPE_ENDPOINT {
        Descriptor::Endpoint(
            EndpointDescriptor {
                length,
                descriptor_type,
                endpoint_address: buf[at + 2],
                attributes: buf[at + 3],
                max_packet_size: read_u16(buf, at + 4),
                interval: buf[at + 6],
            },
        )
    } else if descriptor_type == DESCRIPTOR_TYPE_HID {
        Descriptor::Hid(
            HidDescriptor {
                length,
                descriptor_type,
                hid_release: read_u16(buf, at + 2),
                country_code: buf[at + 4],
                num_descriptors: buf[at + 5],
                class_descriptor_type: buf[at + 6],
                class_descriptor_length: read_u16(buf, at + 7),
            },
        )
    } else {
        Descriptor::Unknown { descriptor_type, length }
    }
}

fn minimum_length(descriptor_type: u8) -> (length: u8)
    ensures
        length == min_length(descriptor_type),
{
    if descriptor_type == DESCRIPTOR_TYPE_DEVICE {
        18
    } else if descriptor_type == DESCRIPTOR_TYPE_CONFIGURATION {
        9
    } else if descriptor_type == DESCRIPTOR_TYPE_INTERFACE {
        9
    } else if descriptor_type == DESCRIPTOR_TYPE_ENDPOINT {
        7
    } else if descriptor_type == DESCRIPTOR_TYPE_HID {
        9
    } else {
        2
    }
}

/// A cursor that reads the records of a descriptor buffer one after the
/// other. It only ever moves forward and stops at the end of the buffer.
pub struct DescriptorSequence<'a> {
    buf: &'a [u8],
    index: usize,
}

impl<'a> DescriptorSequence<'a> {
    /// The buffer that is read.
    pub closed spec fn buffer(&self) -> Seq<u8> {
        self.buf@
    }

    /// The offset of the record that is read next.
    pub closed spec fn position(&self) -> int {
        self.index as int
    }

    /// A cursor at the beginning of `buf`.
    pub fn new(buf: &'a [u8]) -> (sequence: Self)
        ensures
            sequence.buffer() == buf@,
            sequence.position() == 0,
    {
        DescriptorSequence { buf, index: 0 }
    }

    /// Reads the next record.
    ///
    /// Returns `None` at the end of the buffer. A malformed record is
    /// reported once, with its offset, and moves the cursor to the end of the
    /// buffer; a well-formed one moves it to the record that follows.
    pub fn next(&mut self) -> (r: Option<PciResult<Descriptor>>)
        ensures
            final(self).buffer() == old(self).buffer(),
            final(self).position() >= old(self).position(),
            old(self).position() >= old(self).buffer().len() ==> r is None && final(self).position()
                == old(self).position(),
            old(self).position() < old(self).buffer().len() && !record_at(
                old(self).buffer(),
                old(self).position(),
            ) ==> r == Some(Err::<Descriptor, PciError>(malformed(old(self).position() as usize)))
                && final(self).position() == old(self).buffer().len(),
            old(self).position() < old(self).buffer().len() && record_at(
                old(self).buffer(),
                old(self).position(),
            ) ==> r == Some(
                Ok::<Descriptor, PciError>(descriptor_at(old(self).buffer(), old(self).position())),
            ) && final(self).position() == old(self).position() + old(self).buffer()[old(self).position()],
    {
        let len = self.buf.len();
        let at = self.index;
        if at >= len {
            return None;
        }
        if len - at < 2 {
            self.index = len;
            return Some(Err(PciError::FailedOperateDevice(DeviceReason::MalformedDescriptor { offset: at })));
        }
        let length = self.buf[at];
        let descriptor_type = self.buf[at + 1];
        if length < minimum_length(descriptor_type) || length as usize > len - at {
            self.index = len;
            return Some(Err(PciError::FailedOperateDevice(DeviceReason::MalformedDescriptor { offset: at })));
        }
        let descriptor = read_descriptor(self.buf, at);
        self.index = at + length as usize;
        Some(Ok(descriptor))
    }

    /// Reads all records that are left.
    pub fn collect(&mut self) -> (r: PciResult<Vec<Descriptor>>)
        ensures
            final(self).buffer() == old(self).buffer(),
            final(self).position() >= old(self).position(),
            match descriptors_from(old(self).buffer(), old(self).position()) {
                Ok(records) => r matches Ok(read) && read@ == records,
                Err(e) => r == Err::<Vec<Descriptor>, PciError>(e),
            },
    {
        let mut read: Vec<Descriptor> = Vec::new();
        let ghost buf = self.buffer();
        let ghost start = self.position();
        loop
            invariant
                self.buffer() == buf,
                buf == old(self).buffer(),
                start == old(self).position(),
                0 <= start <= self.position(),
                descriptors_from(buf, start) == prepend(
                    read@,
                    descriptors_from(buf, self.position()),
                ),
            ensures
                self.buffer() == buf,
                start <= self.position(),
                self.position() >= buf.len(),
                descriptors_from(buf, start) == Ok::<Seq<Descriptor>, PciError>(read@),
            decreases buf.len() - self.position(),
        {
            let ghost at = self.position();
            match self.next() {
                None => {
                    proof {
                        assert(read@ + Seq::<Descriptor>::empty() =~= read@);
                    }
                    break ;
                },
                Some(Err(e)) => {
                    return Err(e);
                },
                Some(Ok(descriptor)) => {
                    proof {
                        let rest = descriptors_from(buf, at + buf[at]);
                        if rest is Ok {
                            assert(read@ + (seq![descriptor] + rest->Ok_0) =~= read@.push(
                                descriptor,
                            ) + rest->Ok_0);
                        }
                    }
                    read.push(descriptor);
                },
            }
        }
        Ok(read)
    }
}

/// Reads the records of a descriptor buffer.
///
/// Returns them in the order in which they lie in the buffer, or the error
/// for the first record that is malformed. The result depends on the bytes
/// alone: reading the same bytes again gives the same records.
pub fn parse_descriptors(buf: &[u8]) -> (r: PciResult<Vec<Descriptor>>)
    ensures
        match descriptors_of(buf@) {
            Ok(records) => r matches Ok(read) && read@ == records,
            Err(e) => r == Err::<Vec<Descriptor>, PciError>(e),
        },
{
    let mut sequence = DescriptorSequence::new(buf);
    sequence.collect()
}

/// Two buffers that hold the same bytes hold the same records: reading is
/// a function of the bytes, so reading a buffer twice gives equal results.
pub proof fn lemma_parse_is_idempotent(first: Seq<u8>, second: Seq<u8>)
    requires
        first =~= second,
    ensures
        descriptors_of(first) == descriptors_of(second),
{
}

} // verus!
