use vstd::prelude::*;
use vstd::slice::slice_subrange;

use crate::control_pipe::in_data_transfer;
use crate::control_pipe::no_data_transfer;
use crate::control_pipe::transfer_accesses;
use crate::control_pipe::ControlPipe;
use crate::control_pipe::Request;
use crate::descriptor::descriptors_of;
use crate::descriptor::parse_descriptors;
use crate::descriptor::ConfigurationDescriptor;
use crate::descriptor::Descriptor;
use crate::descriptor::EndpointDescriptor;
use crate::descriptor::InterfaceDescriptor;
use crate::device_slot::DeviceSlot;
use crate::error::DeviceReason;
use crate::error::PciError;
use crate::error::PciResult;
use crate::hid::lemma_hid_device_descriptors;
use crate::hid::HidDeviceDescriptors;
use crate::hid::KeyboardDriver;
use crate::hid::MouseDriver;
use crate::phase::DevicePhase;
use crate::phase::InitStatus;
use crate::phase::Phase;
use crate::phase::Transition;
use crate::phase1::configuration_asked;
use crate::phase1::Phase1;
use crate::phase3::interface_numbers;
use crate::phase3::Phase3;
use crate::ring::lemma_enqueue_all;
use crate::ring::ring_full;
use crate::transfer::invalid_transfer_length;
use crate::transfer::transferred;
use crate::transfer::TargetEvent;
use crate::transfer::TransferEvent;
use crate::volatile::Access;
use crate::volatile::VolatileMemory;

verus! {

/// The phase of a device that has an address and whose configuration is
/// being read.
pub struct Phase2 {
    mouse: MouseDriver,
    keyboard: KeyboardDriver,
}

impl Phase2 {
    pub closed spec fn mouse(&self) -> MouseDriver {
        self.mouse
    }

    pub closed spec fn keyboard(&self) -> KeyboardDriver {
        self.keyboard
    }

    pub fn new(mouse: MouseDriver, keyboard: KeyboardDriver) -> (phase: Phase2)
        ensures
            phase.mouse() == mouse,
            phase.keyboard() == keyboard,
    {
        Self { mouse, keyboard }
    }
}

/// The first endpoint descriptor among `descriptors` at the index `from` or
/// after it, if there is one.
pub open spec fn first_endpoint_from(descriptors: Seq<Descriptor>, from: int) -> Option<
    EndpointDescriptor,
>
    decreases descriptors.len() - from,
{
    if from < 0 || from >= descriptors.len() {
        None
    } else {
        match descriptors[from] {
            Descriptor::Endpoint(endpoint) => Some(endpoint),
            _ => first_endpoint_from(descriptors, from + 1),
        }
    }
}

/// The pair for the interface at `index`, if the record there is the
/// interface of a mouse or a keyboard and an endpoint follows it: the
/// endpoint is the first one found after skipping the record behind the
/// interface, which in an input device is its HID descriptor.
pub open spec fn hid_descriptors_at(descriptors: Seq<Descriptor>, index: int) -> Option<
    HidDeviceDescriptors,
> {
    match descriptors[index] {
        Descriptor::Interface(interface) => if interface.is_mouse() || interface.is_keyboard() {
            match first_endpoint_from(descriptors, index + 2) {
                Some(endpoint) => Some(HidDeviceDescriptors::new(interface, endpoint)),
                None => None,
            }
        } else {
            None
        },
        _ => None,
    }
}

/// The pairs for the interfaces among the first `n` of `descriptors`, in
/// the order of the interfaces.
pub open spec fn hid_descriptors_upto(descriptors: Seq<Descriptor>, n: int) -> Seq<
    HidDeviceDescriptors,
>
    decreases n,
{
    if n <= 0 {
        Seq::empty()
    } else {
        let before = hid_descriptors_upto(descriptors, n - 1);
        match hid_descriptors_at(descriptors, n - 1) {
            Some(pair) => before.push(pair),
            None => before,
        }
    }
}

/// The pairs for all interfaces of mice and keyboards among `descriptors`.
pub open spec fn hid_descriptors_of(descriptors: Seq<Descriptor>) -> Seq<HidDeviceDescriptors> {
    hid_descriptors_upto(descriptors, descriptors.len() as int)
}

/// The descriptors `descriptors` hold one interface, at the index `at`, and
/// one endpoint, at the index `endpoint_at`, which comes behind the record
/// that follows the interface.
pub open spec fn one_interface_one_endpoint(
    descriptors: Seq<Descriptor>,
    at: int,
    endpoint_at: int,
    interface: InterfaceDescriptor,
    endpoint: EndpointDescriptor,
) -> bool {
    &&& 0 <= at
    &&& at + 2 <= endpoint_at < descriptors.len()
    &&& descriptors[at] == Descriptor::Interface(interface)
    &&& descriptors[endpoint_at] == Descriptor::Endpoint(endpoint)
    &&& forall|k: int|
        0 <= k < descriptors.len() && k != at ==> !(#[trigger] descriptors[k] is Interface)
    &&& forall|k: int|
        0 <= k < descriptors.len() && k != endpoint_at ==> !(#[trigger] descriptors[k] is Endpoint)
}

proof fn lemma_the_endpoint_is_found(
    descriptors: Seq<Descriptor>,
    from: int,
    endpoint_at: int,
    endpoint: EndpointDescriptor,
)
    requires
        0 <= from <= endpoint_at < descriptors.len(),
        descriptors[endpoint_at] == Descriptor::Endpoint(endpoint),
        forall|k: int| from <= k < endpoint_at ==> !(#[trigger] descriptors[k] is Endpoint),
    ensures
        first_endpoint_from(descriptors, from) == Some(endpoint),
    decreases endpoint_at - from,
{
    if from < endpoint_at {
        assert(!(descriptors[from] is Endpoint));
        lemma_the_endpoint_is_found(descriptors, from + 1, endpoint_at, endpoint);
    }
}

proof fn lemma_pairs_upto(
    descriptors: Seq<Descriptor>,
    at: int,
    endpoint_at: int,
    interface: InterfaceDescriptor,
    endpoint: EndpointDescriptor,
    n: int,
)
    requires
        one_interface_one_endpoint(descriptors, at, endpoint_at, interface, endpoint),
        interface.is_mouse() || interface.is_keyboard(),
        0 <= n <= descriptors.len(),
    ensures
        hid_descriptors_upto(descriptors, n) == if n <= at {
            Seq::<HidDeviceDescriptors>::empty()
        } else {
            seq![HidDeviceDescriptors::new(interface, endpoint)]
        },
    decreases n,
{
    if n > 0 {
        lemma_pairs_upto(descriptors, at, endpoint_at, interface, endpoint, n - 1);
        if n - 1 == at {
            lemma_the_endpoint_is_found(descriptors, at + 2, endpoint_at, endpoint);
            assert(Seq::<HidDeviceDescriptors>::empty().push(
                HidDeviceDescriptors::new(interface, endpoint),
            ) =~= seq![HidDeviceDescriptors::new(interface, endpoint)]);
        } else {
            assert(!(descriptors[n - 1] is Interface));
        }
    }
}

/// A configuration with one interface, that of a mouse or a keyboard, and
/// one endpoint behind the record that follows the interface gives one
/// pair, made of that interface and that endpoint, and so the number of
/// that interface and no other.
pub proof fn lemma_one_interface_gives_one_pair(
    descriptors: Seq<Descriptor>,
    at: int,
    endpoint_at: int,
    interface: InterfaceDescriptor,
    endpoint: EndpointDescriptor,
)
    requires
        one_interface_one_endpoint(descriptors, at, endpoint_at, interface, endpoint),
        interface.is_mouse() || interface.is_keyboard(),
    ensures
        hid_descriptors_of(descriptors) == seq![HidDeviceDescriptors::new(interface, endpoint)],
        interface_numbers(hid_descriptors_of(descriptors)) == seq![interface.interface_number],
{
    lemma_pairs_upto(
        descriptors,
        at,
        endpoint_at,
        interface,
        endpoint,
        descriptors.len() as int,
    );
    lemma_hid_device_descriptors(interface, endpoint);
    assert(interface_numbers(seq![HidDeviceDescriptors::new(interface, endpoint)])
        =~= seq![interface.interface_number]);
}

/// The error for a buffer that does not begin with a configuration
/// descriptor.
pub open spec fn not_configuration_descriptor() -> PciError {
    PciError::FailedOperateDevice(DeviceReason::NotConfigurationDescriptor)
}

/// What the completion of the transfer that read the configuration says
/// about the device: its configuration descriptor and the pairs for its
/// mouse and keyboard interfaces, or the error for an event or a buffer
/// that cannot be used. `buff` is the buffer the transfer read into.
pub open spec fn configuration_of(
    buff: Seq<u8>,
    transfer_event: TransferEvent,
    target_event: TargetEvent,
) -> PciResult<(ConfigurationDescriptor, Seq<HidDeviceDescriptors>)> {
    match target_event.data_stage() {
        Err(e) => Err(e),
        Ok(stage) => match transferred(stage, transfer_event) {
            None => Err(invalid_transfer_length()),
            Some(len) => if len > buff.len() {
                Err(invalid_transfer_length())
            } else {
                match descriptors_of(buff.subrange(0, len)) {
                    Err(e) => Err(e),
                    Ok(descriptors) => if descriptors.len() == 0 {
                        Err(not_configuration_descriptor())
                    } else {
                        match descriptors[0].configuration() {
                            None => Err(not_configuration_descriptor()),
                            Some(configuration) => Ok(
                                (configuration, hid_descriptors_of(descriptors)),
                            ),
                        }
                    },
                }
            },
        },
    }
}

/// What [`Phase2::on_transfer_event_received`] makes of the phase `before`
/// and the slot `slot0` on the event given: the phase `after`, the slot
/// `slot1` and the result `r`, with the accesses `t0` made before the call
/// and `t1` after it.
pub open spec fn configuration_handled(
    before: Phase2,
    after: Phase2,
    slot0: DeviceSlot,
    slot1: DeviceSlot,
    t0: Seq<Access>,
    t1: Seq<Access>,
    transfer_event: TransferEvent,
    target_event: TargetEvent,
    r: PciResult<Transition>,
) -> bool {
    &&& after == before
    &&& slot1.slot_id == slot0.slot_id
    &&& slot1.doorbell == slot0.doorbell
    &&& slot1.data_buff_addr == slot0.data_buff_addr
    &&& slot1.data_buff == slot0.data_buff
    &&& slot1.mouse_pipe == slot0.mouse_pipe
    &&& slot1.keyboard_pipe == slot0.keyboard_pipe
    &&& slot1.input_context.root_port == slot0.input_context.root_port
    &&& match configuration_of(slot0.data_buff@, transfer_event, target_event) {
        Err(e) => {
            &&& r is Err
            &&& r->Err_0 == e
            &&& slot1.input_context == slot0.input_context
            &&& slot1.default_control_pipe.ring() == slot0.default_control_pipe.ring()
            &&& t1 == t0
        },
        Ok((configuration, pairs)) => if slot0.default_control_pipe.ring().free() < 2 {
            &&& r is Err
            &&& r->Err_0 == ring_full()
            &&& slot1.input_context == slot0.input_context
            &&& slot1.default_control_pipe.ring() == slot0.default_control_pipe.ring()
            &&& t1 == t0
        } else {
            &&& r matches Ok(transition)
            &&& transition.status == InitStatus::new(false)
            &&& transition.report is None
            &&& transition.next matches Some(DevicePhase::Operational(phase))
            &&& phase.mouse == before.mouse()
            &&& phase.keyboard == before.keyboard()
            &&& phase.hid_device_descriptors@ == pairs
            &&& slot1.input_context.config_value == configuration.configuration_value
            &&& slot1.default_control_pipe.ring() == slot0.default_control_pipe.ring().enqueue_all(
                no_data_transfer(
                    Request::configuration(configuration.configuration_value as u16),
                ),
            )
            &&& t1 == t0 + transfer_accesses(
                slot0.default_control_pipe.ring(),
                no_data_transfer(Request::configuration(configuration.configuration_value as u16)),
                slot0.doorbell.addr(),
                1,
            )
        }
    }
}

/// A device whose configuration holds one interface, that of a mouse or a
/// keyboard, and one endpoint behind the record that follows the interface
/// enters the operational phase on the completion of the transfer that
/// read the configuration, if the default control pipe has room for the
/// request that selects the configuration: with one pair, made of that
/// interface and that endpoint, with the drivers of the phase before, and
/// with the value of the configuration staged in the input context.
pub proof fn lemma_one_interface_enters_operation(
    before: Phase2,
    after: Phase2,
    slot0: DeviceSlot,
    slot1: DeviceSlot,
    t0: Seq<Access>,
    t1: Seq<Access>,
    transfer_event: TransferEvent,
    target_event: TargetEvent,
    r: PciResult<Transition>,
    descriptors: Seq<Descriptor>,
    at: int,
    endpoint_at: int,
    interface: InterfaceDescriptor,
    endpoint: EndpointDescriptor,
)
    requires
        configuration_handled(
            before,
            after,
            slot0,
            slot1,
            t0,
            t1,
            transfer_event,
            target_event,
            r,
        ),
        target_event.data_stage() matches Ok(stage) && (transferred(stage, transfer_event) matches Some(
            len,
        ) && len <= slot0.data_buff@.len() && descriptors_of(slot0.data_buff@.subrange(0, len))
            == Ok::<Seq<Descriptor>, PciError>(descriptors)),
        descriptors.len() > 0,
        descriptors[0] is Configuration,
        one_interface_one_endpoint(descriptors, at, endpoint_at, interface, endpoint),
        interface.is_mouse() || interface.is_keyboard(),
        slot0.default_control_pipe.ring().free() >= 2,
    ensures
        r matches Ok(transition) && (transition.next matches Some(DevicePhase::Operational(phase))
            && phase.mouse == before.mouse() && phase.keyboard == before.keyboard()
            && phase.hid_device_descriptors@ == seq![HidDeviceDescriptors::new(interface, endpoint)]
            && interface_numbers(phase.hid_device_descriptors@) == seq![
            interface.interface_number,
        ]),
        slot1.input_context.config_value == descriptors[0]->Configuration_0.configuration_value,
{
    lemma_one_interface_gives_one_pair(descriptors, at, endpoint_at, interface, endpoint);
}

/// The way of a device with one input interface from addressing into
/// operation.
///
/// The device is given its address while its default control pipe has
/// room for five blocks, as a pipe that was not used has. It then enters
/// the configuration phase. Until the transfer that reads the
/// configuration completes, blocks may leave the pipe and the buffer is
/// filled. If the buffer then holds a configuration with one interface,
/// that of a mouse or a keyboard, and one endpoint behind the record that
/// follows the interface, the device enters the operational phase with the
/// number of that interface and no other. It never stays in a phase and
/// never goes back.
pub proof fn lemma_progression(
    addressing: Phase1,
    slot0: DeviceSlot,
    slot1: DeviceSlot,
    t0: Seq<Access>,
    t1: Seq<Access>,
    r1: PciResult<Transition>,
    configuring: Phase2,
    configured: Phase2,
    slot2: DeviceSlot,
    slot3: DeviceSlot,
    t2: Seq<Access>,
    t3: Seq<Access>,
    transfer_event: TransferEvent,
    target_event: TargetEvent,
    r2: PciResult<Transition>,
    descriptors: Seq<Descriptor>,
    at: int,
    endpoint_at: int,
    interface: InterfaceDescriptor,
    endpoint: EndpointDescriptor,
)
    requires
        slot0.default_control_pipe.ring().wf(),
        slot0.default_control_pipe.ring().free() >= 5,
        configuration_asked(addressing, slot0, slot1, t0, t1, r1),
        r1 matches Ok(first) ==> first.next == Some(DevicePhase::Configuration(configuring)),
        slot2.default_control_pipe.ring().free() >= slot1.default_control_pipe.ring().free(),
        configuration_handled(
            configuring,
            configured,
            slot2,
            slot3,
            t2,
            t3,
            transfer_event,
            target_event,
            r2,
        ),
        target_event.data_stage() matches Ok(stage) && (transferred(stage, transfer_event) matches Some(
            len,
        ) && len <= slot2.data_buff@.len() && descriptors_of(slot2.data_buff@.subrange(0, len))
            == Ok::<Seq<Descriptor>, PciError>(descriptors)),
        descriptors.len() > 0,
        descriptors[0] is Configuration,
        one_interface_one_endpoint(descriptors, at, endpoint_at, interface, endpoint),
        interface.is_mouse() || interface.is_keyboard(),
    ensures
        r1 matches Ok(first) && first.next == Some(DevicePhase::Configuration(configuring)),
        r2 matches Ok(second) && (second.next matches Some(DevicePhase::Operational(phase))
            && phase.mouse == addressing.mouse && phase.keyboard == addressing.keyboard
            && interface_numbers(phase.hid_device_descriptors@) == seq![
            interface.interface_number,
        ]),
        DevicePhase::Addressing(addressing).rank() < r1->Ok_0.next->Some_0.rank()
            < r2->Ok_0.next->Some_0.rank(),
{
    let ring = slot0.default_control_pipe.ring();
    let blocks = in_data_transfer(Phase1::read_configuration(), slot0.data_buff_addr, 256);
    lemma_enqueue_all(ring, blocks);
    lemma_one_interface_enters_operation(
        configuring,
        configured,
        slot2,
        slot3,
        t2,
        t3,
        transfer_event,
        target_event,
        r2,
        descriptors,
        at,
        endpoint_at,
        interface,
        endpoint,
    );
}

impl Phase for Phase2 {
    open spec fn phase_rank(&self) -> int {
        1
    }

    /// Handles the completion of the transfer that read the configuration
    /// descriptor.
    ///
    /// The bytes that were transferred are read as descriptors; see
    /// [`configuration_of`] for what is refused. For the first descriptor,
    /// which has to be the configuration descriptor, the request that
    /// selects its configuration is started on the default control pipe, its
    /// value is staged in the input context, and the device enters the
    /// operational phase with the pairs found for its mouse and keyboard
    /// interfaces. A refused event, or a pipe without room for the request
    /// (`Full`), changes nothing and leaves the device in this phase.
    fn on_transfer_event_received<M: VolatileMemory>(
        &mut self,
        slot: &mut DeviceSlot,
        mem: &mut M,
        transfer_event: TransferEvent,
        target_event: TargetEvent,
    ) -> (r: PciResult<Transition>)
        ensures
            configuration_handled(
                *old(self),
                *final(self),
                *old(slot),
                *final(slot),
                old(mem).history(),
                final(mem).history(),
                transfer_event,
                target_event,
                r,
            ),
    {
        let data_stage = match target_event.data_stage() {
            Ok(stage) => stage,
            Err(e) => {
                return Err(e);
            },
        };
        if transfer_event.trb_transfer_length > data_stage.trb_transfer_length {
            return Err(PciError::FailedOperateDevice(DeviceReason::InvalidTransferLength));
        }
        let transferred: u32 = data_stage.trb_transfer_length - transfer_event.trb_transfer_length;
        if transferred as usize > slot.data_buff.len() {
            return Err(PciError::FailedOperateDevice(DeviceReason::InvalidTransferLength));
        }
        let conf_desc_buff_len: usize = transferred as usize;
        let conf_desc_buff = slice_subrange(slot.data_buff.as_slice(), 0, conf_desc_buff_len);
        let descriptors = match parse_descriptors(conf_desc_buff) {
            Ok(descriptors) => descriptors,
            Err(e) => {
                return Err(e);
            },
        };
        if descriptors.len() == 0 {
            return Err(PciError::FailedOperateDevice(DeviceReason::NotConfigurationDescriptor));
        }
        let conf_desc = match descriptors[0].configuration() {
            Some(configuration) => configuration,
            None => {
                return Err(PciError::FailedOperateDevice(DeviceReason::NotConfigurationDescriptor));
            },
        };
        let hid_device_descriptors = collect_hid_descriptors(descriptors.as_slice());
        match set_configuration(conf_desc.configuration_value as u16, mem, &mut slot.default_control_pipe) {
            Ok(_) => {},
            Err(e) => {
                return Err(e);
            },
        }
        slot.input_context.set_config(conf_desc.configuration_value);
        Ok(
            Transition {
                status: InitStatus::not(),
                next: Some(
                    DevicePhase::Operational(Phase3::new(self.mouse, self.keyboard, hid_device_descriptors)),
                ),
                report: None,
            },
        )
    }

    fn interface_nums(&self) -> (nums: Option<Vec<u8>>)
        ensures
            nums is None,
    {
        None
    }
}

/// Starts the request that selects the configuration `config_value` on the
/// default control pipe; see [`ControlPipe::control_out_no_data`].
pub fn set_configuration<M: VolatileMemory>(
    config_value: u16,
    mem: &mut M,
    default_control_pipe: &mut ControlPipe,
) -> (r: PciResult)
    requires
        old(default_control_pipe).wf(),
    ensures
        final(default_control_pipe).wf(),
        final(default_control_pipe).doorbell() == old(default_control_pipe).doorbell(),
        old(default_control_pipe).ring().free() < 2 ==> {
            &&& r is Err
            &&& r->Err_0 == ring_full()
            &&& final(default_control_pipe).ring() == old(default_control_pipe).ring()
            &&& final(mem).history() == old(mem).history()
        },
        old(default_control_pipe).ring().free() >= 2 ==> {
            &&& r is Ok
            &&& final(default_control_pipe).ring() == old(default_control_pipe).ring().enqueue_all(
                no_data_transfer(Request::configuration(config_value)),
            )
            &&& final(mem).history() == old(mem).history() + transfer_accesses(
                old(default_control_pipe).ring(),
                no_data_transfer(Request::configuration(config_value)),
                old(default_control_pipe).doorbell().addr(),
                1,
            )
        },
{
    match default_control_pipe.control_out_no_data(mem, Request::configuration(config_value)) {
        Ok(_) => Ok(()),
        Err(e) => Err(e),
    }
}

/// The interface descriptor in the record `pair.1`, together with the
/// index `pair.0` of the record, if the record is an interface descriptor.
pub fn filter_interface(pair: (usize, &Descriptor)) -> (r: Option<(usize, InterfaceDescriptor)>)
    ensures
        r == match pair.1.interface() {
            Some(interface) => Some((pair.0, interface)),
            None => None,
        },
{
    match pair.1.interface() {
        Some(interface) => Some((pair.0, interface)),
        None => None,
    }
}

/// Whether the interface `pair.1` is that of a mouse or of a keyboard.
pub fn filter_mouse_or_keyboard(pair: (usize, &InterfaceDescriptor)) -> (keep: bool)
    ensures
        keep == (pair.1.is_mouse() || pair.1.is_keyboard()),
{
    pair.1.is_mouse() || pair.1.is_keyboard()
}

/// Pairs the interface at `index` with the first endpoint found among
/// `descriptors` after skipping the record behind the interface. `None`
/// where no endpoint follows.
pub fn map_hid_descriptors(index: usize, interface: InterfaceDescriptor, descriptors: &[Descriptor])
    -> (r: Option<HidDeviceDescriptors>)
    ensures
        r == match first_endpoint_from(descriptors@, index + 2) {
            Some(endpoint) => Some(HidDeviceDescriptors::new(interface, endpoint)),
            None => None,
        },
{
    if descriptors.len() < 2 || index > descriptors.len() - 2 {
        return None;
    }
    let mut at: usize = index + 1 + 1;
    while at < descriptors.len()
        invariant
            index + 2 <= at,
            first_endpoint_from(descriptors@, index + 2) == first_endpoint_from(
                descriptors@,
                at as int,
            ),
        decreases descriptors@.len() - at,
    {
        if let Descriptor::Endpoint(endpoint) = &descriptors[at] {
            return Some(HidDeviceDescriptors::new(interface, *endpoint));
        }
        at = at + 1;
    }
    None
}

/// Collects the pairs for all interfaces of mice and keyboards among
/// `descriptors`.
pub fn collect_hid_descriptors(descriptors: &[Descriptor]) -> (pairs: Vec<HidDeviceDescriptors>)
    ensures
        pairs@ == hid_descriptors_of(descriptors@),
{
    let mut pairs: Vec<HidDeviceDescriptors> = Vec::new();
    let mut index: usize = 0;
    while index < descriptors.len()
        invariant
            index <= descriptors@.len(),
            pairs@ == hid_descriptors_upto(descriptors@, index as int),
        decreases descriptors@.len() - index,
    {
        if let Some((at, interface)) = filter_interface((index, &descriptors[index])) {
            if filter_mouse_or_keyboard((at, &interface)) {
                if let Some(pair) = map_hid_descriptors(at, interface, descriptors) {
                    pairs.push(pair);
                }
            }
        }
        index = index + 1;
    }
    pairs
}

} // verus!
