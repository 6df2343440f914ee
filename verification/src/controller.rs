use vstd::prelude::*;

use crate::allocator::not_aligned_64;
use crate::allocator::Allocation;
use crate::registers::allocate_device_context_array_run;
use crate::registers::answer;
use crate::registers::asked;
use crate::registers::bring_up_requests;
use crate::registers::command_ring_control_register::COMMAND_RING_SLOTS;
use crate::registers::device_context_array_bytes;
use crate::registers::extends_requests;
use crate::registers::lemma_setup_event_ring_stable;
use crate::registers::setup_device_context_max_slots_run;
use crate::registers::setup_event_ring_run;
use crate::registers::command_ring_control_register::register_command_ring_run;
use crate::registers::command_ring_control_register::CommandRingControlRegister;
use crate::ring::nothing_pending;
use crate::ring::ring_full;
use crate::ring::ring_too_small;
use crate::volatile::lemma_extends_transitive;
use crate::control_pipe::in_data_transfer;
use crate::control_pipe::transfer_accesses;
use crate::transfer::unexpected_transfer;
use crate::allocator::MemoryAllocatable;
use crate::delivery::arm;
use crate::delivery::armed;
use crate::delivery::completed_block;
use crate::device_slot::InputContext;
use crate::registers::not_enough_memory;
use crate::ring::ring_made;
use crate::delivery::completion_failed;
use crate::delivery::deliver;
use crate::delivery::delivered;
use crate::delivery::Device;
use crate::device_slot::DeviceSlot;
use crate::device_slot::InterruptPipe;
use crate::device_slot::DATA_BUFF_SIZE;
use crate::device_slot::REPORT_BUFF_SIZE;
use crate::dma::read_bytes;
use crate::error::AllocateReason;
use crate::error::DeviceReason;
use crate::error::PciError;
use crate::error::PciResult;
use crate::error::RingReason;
use crate::event_ring::Dequeued;
use crate::event_ring::EventRing;
use crate::event_ring::EventRingModel;
use crate::event_ring::Segment;
use crate::hid::HidDeviceDescriptors;
use crate::hid::InputReport;
use crate::hid::KeyboardDriver;
use crate::hid::MouseDriver;
use crate::phase::DevicePhase;
use crate::phase::Phase;
use crate::phase1::Phase1;
use crate::phase3::interface_numbers;
use crate::registers::capability::MemoryMappedAddr;
use crate::registers::command_ring_control_register::register_command_ring;
use crate::registers::doorbell::ring_access;
use crate::registers::doorbell::Doorbell;
use crate::registers::doorbell::DoorbellRegistersOffset;
use crate::registers::port::port_store;
use crate::registers::port::PortStatusControl;
use crate::registers::port::PORT_CONNECT_CHANGE;
use crate::registers::port::PORT_RESET;
use crate::registers::port::PORT_RESET_CHANGE;
use crate::registers::setup_event_ring;
use crate::registers::Registers;
use crate::registers::EVENT_RING_SLOTS;
use crate::ring::Ring;
use crate::ring::RingModel;
use crate::transfer::TargetEvent;
use crate::transfer::TransferEvent;
use crate::trb::Event;
use crate::trb::Trb;
use crate::trb::COMPLETION_SHORT_PACKET;
use crate::trb::COMPLETION_SUCCESS;
use crate::trb::TYPE_ADDRESS_DEVICE;
use crate::trb::TYPE_CONFIGURE_ENDPOINT;
use crate::trb::TYPE_ENABLE_SLOT;
use crate::volatile::extends;
use crate::volatile::write_step;
use crate::volatile::Access;
use crate::volatile::BitField;
use crate::volatile::VolatileMemory;

verus! {

/// The number of slots of the transfer ring of a control pipe, the link
/// slot included.
pub const RING_SLOTS: usize = 32;

/// The number of bytes of an input context.
pub const INPUT_CONTEXT_BYTES: usize = 0x420;

/// The doorbell target of the command ring.
pub const TARGET_COMMAND_RING: u8 = 0;

/// What bringing up a controller finds out about it.
pub struct BroughtUp {
    /// The address of the command ring.
    pub command_ring: u64,
    /// The segment of the event ring.
    pub segment: Segment,
    /// The address at which the doorbell array begins.
    pub doorbells: usize,
    /// The number of device slots that are enabled.
    pub max_slots: u8,
}

/// The driver of a controller: its registers, its rings and the devices
/// attached to it.
pub struct XhcController {
    registers: Registers,
    doorbells: DoorbellRegistersOffset,
    command_ring: Ring,
    event_ring: EventRing,
    devices: Vec<Device>,
    max_slots: u8,
    addressing_port: Option<u8>,
    mouse: MouseDriver,
    keyboard: KeyboardDriver,
}

/// The index of the first device among `devices`, from the index `from`
/// on, that has the slot `slot_id`.
pub open spec fn position(devices: Seq<Device>, slot_id: u8, from: int) -> Option<int>
    decreases devices.len() - from,
{
    if from < 0 || from >= devices.len() {
        None
    } else if devices[from].slot.slot_id == slot_id {
        Some(from)
    } else {
        position(devices, slot_id, from + 1)
    }
}

/// The numbers of the interfaces that a device in the phase `phase` is used
/// through.
pub open spec fn interfaces_of(phase: DevicePhase) -> Option<Seq<u8>> {
    match phase {
        DevicePhase::Operational(operational) => Some(
            interface_numbers(operational.hid_device_descriptors@),
        ),
        _ => None,
    }
}

/// Every device of `before` is still in its place in `after`, in its
/// slot, and has not fallen back into an earlier phase.
pub open spec fn progressed(before: Seq<Device>, after: Seq<Device>) -> bool {
    &&& before.len() <= after.len()
    &&& forall|i: int|
        0 <= i < before.len() ==> (#[trigger] after[i]).slot.slot_id == before[i].slot.slot_id
            && after[i].phase.rank() >= before[i].phase.rank()
}

/// Every device of `before` that is not in the slot `slot_id` is in `after`
/// as it was.
pub open spec fn others_kept(before: Seq<Device>, after: Seq<Device>, slot_id: u8) -> bool {
    &&& before.len() <= after.len()
    &&& forall|i: int|
        0 <= i < before.len() && before[i].slot.slot_id != slot_id ==> #[trigger] after[i]
            == before[i]
}

/// The slot an event is about; zero for an event that is about none.
pub open spec fn slot_of_event(event: Event) -> u8 {
    match event {
        Event::Transfer { slot_id, .. } => slot_id,
        Event::CommandCompletion { slot_id, .. } => slot_id,
        _ => 0,
    }
}

/// What changes of a driver while it handles events.
pub struct State {
    pub command_ring: RingModel,
    /// The devices that have a slot, in the order in which they got it.
    pub devices: Seq<Device>,
    /// The root hub port whose device gets the next slot, if a port is
    /// being reset or waits for a slot.
    pub addressing: Option<u8>,
}

/// What was found out when the controller was brought up, and stays.
pub struct Setup {
    /// The address of the status and control register of the first root hub
    /// port.
    pub ports: int,
    /// The address at which the doorbell array begins.
    pub doorbells: usize,
    /// The dequeue pointer of the event ring.
    pub erdp: BitField,
    pub max_slots: u8,
    pub mouse: MouseDriver,
    pub keyboard: KeyboardDriver,
}

/// The result `r` without what it holds on success.
pub open spec fn done<T>(r: PciResult<T>) -> PciResult {
    match r {
        Ok(_) => Ok(()),
        Err(e) => Err(e),
    }
}

/// The accesses that issue the command `trb` on the command ring `ring`:
/// the stores that put the block into the ring, and after them the store
/// that rings the doorbell of the command ring, which is the first of the
/// array at `doorbells`.
pub open spec fn command_accesses(ring: RingModel, trb: Trb, doorbells: usize) -> Seq<Access> {
    ring.enqueue_stores(trb).push(ring_access(doorbells, 0, 0))
}

/// What issuing the command `trb` does: where the command ring is full,
/// nothing, and the result is `Full`; otherwise the block is enqueued and
/// the doorbell of the command ring is rung.
pub open spec fn commanded(
    setup: Setup,
    s0: State,
    s1: State,
    t0: Seq<Access>,
    t1: Seq<Access>,
    trb: Trb,
    r: PciResult,
) -> bool {
    if s0.command_ring.full() {
        &&& r is Err
        &&& r->Err_0 == ring_full()
        &&& s1 == s0
        &&& t1 == t0
    } else {
        &&& r is Ok
        &&& s1 == (State { command_ring: s0.command_ring.enqueue(trb), ..s0 })
        &&& t1 == t0 + command_accesses(s0.command_ring, trb, setup.doorbells)
    }
}

/// The load of the 32-bit register at `addr` that gave `value`.
pub open spec fn load_of(addr: usize, value: u32) -> Access {
    Access { write: false, wide: false, addr, value: value as u64 }
}

/// The store of `value` into the 32-bit register at `addr`.
pub open spec fn store_of(addr: usize, value: u32) -> Access {
    Access { write: true, wide: false, addr, value: value as u64 }
}

/// The address of the status and control register of the root hub port
/// `port_id`, counted from one.
pub open spec fn port_register(setup: Setup, port_id: u8) -> usize {
    (setup.ports + 0x10 * (port_id - 1)) as usize
}

/// What [`XhcController::reset_port`] does.
///
/// A port number of zero is refused with `InvalidSlot`. Otherwise the
/// status of the port is loaded. A port without a device is left alone. On
/// a port with a device the reset is started: the status is loaded once
/// more and stored back with the bit that starts the reset and a one that
/// clears the note of the change of connection, and the port becomes the
/// one whose device gets the next slot.
pub open spec fn port_reset(
    setup: Setup,
    s0: State,
    s1: State,
    t0: Seq<Access>,
    t1: Seq<Access>,
    port_id: u8,
    r: PciResult,
) -> bool {
    let at = t0.len() as int;
    let addr = port_register(setup, port_id);
    if port_id == 0 {
        &&& r is Err
        &&& r->Err_0 == invalid_slot(0)
        &&& s1 == s0
        &&& t1 == t0
    } else {
        let raw = t1[at].value as u32;
        &&& r is Ok
        &&& extends(t0, t1)
        &&& t1.len() >= at + 1
        &&& t1[at] == load_of(addr, raw)
        &&& if raw & 0x1 != 0x1 {
            &&& t1.len() == at + 1
            &&& s1 == s0
        } else {
            let again = t1[at + 1].value as u32;
            &&& t1.len() == at + 3
            &&& t1[at + 1] == load_of(addr, again)
            &&& t1[at + 2] == store_of(addr, port_store(again, 0x2_0010))
            &&& s1 == (State { addressing: Some(port_id), ..s0 })
        }
    }
}

/// The access `t[at + i]` is a load of the status of the root hub port
/// `i + 1` that shows no device.
pub open spec fn port_passed(setup: Setup, t: Seq<Access>, at: int, i: int) -> bool {
    let raw = t[at + i].value as u32;
    &&& t[at + i] == load_of(port_register(setup, (i + 1) as u8), raw)
    &&& raw & 0x1 != 0x1
}

/// The accesses of `t` from index `at` on begin with loads of the status
/// of the first `count` root hub ports, in their order, none of which
/// shows a device.
pub open spec fn ports_passed(setup: Setup, t: Seq<Access>, at: int, count: int) -> bool {
    &&& at + count <= t.len()
    &&& forall|i: int| 0 <= i < count ==> #[trigger] port_passed(setup, t, at, i)
}

/// What [`XhcController::reset_first_connected_port`] does once it knows
/// that there are `last` root hub ports.
///
/// The status of the ports is loaded in their order, from the first on,
/// until one shows a device. Where none does, nothing else happens. Else
/// the reset of that port is started as [`port_reset`] says, the ports
/// after it are not looked at, and the port is returned.
pub open spec fn ports_reset(
    setup: Setup,
    s0: State,
    s1: State,
    t0: Seq<Access>,
    t1: Seq<Access>,
    last: int,
    found: Option<u8>,
) -> bool {
    let at = t0.len() as int;
    &&& extends(t0, t1)
    &&& if t1.len() == at + last && ports_passed(setup, t1, at, last) {
        &&& found is None
        &&& s1 == s0
    } else {
        let port = t1.len() - at - 2;
        &&& 1 <= port <= last
        &&& found == Some(port as u8)
        &&& ports_passed(setup, t1, at, port - 1)
        &&& (t1[at + port - 1].value as u32) & 0x1 == 0x1
        &&& port_reset(setup, s0, s1, t1.take(at + port - 1), t1, port as u8, Ok(()))
    }
}

/// What handling a change of the root hub port `port_id` does.
///
/// A port number of zero is refused with `InvalidSlot`. Otherwise the
/// status of the port is loaded. A port without a device is left alone. A
/// port with a device becomes the one whose device gets the next slot: if
/// its reset has ended, the note of the end is cleared and a slot is asked
/// for, see [`commanded`]; if not, the reset is started.
pub open spec fn port_changed(
    setup: Setup,
    s0: State,
    s1: State,
    t0: Seq<Access>,
    t1: Seq<Access>,
    port_id: u8,
    r: PciResult,
) -> bool {
    let at = t0.len() as int;
    let addr = port_register(setup, port_id);
    if port_id == 0 {
        &&& r is Err
        &&& r->Err_0 == invalid_slot(0)
        &&& s1 == s0
        &&& t1 == t0
    } else {
        let raw = t1[at].value as u32;
        &&& extends(t0, t1)
        &&& t1.len() >= at + 1
        &&& t1[at] == load_of(addr, raw)
        &&& if raw & 0x1 != 0x1 {
            &&& t1.len() == at + 1
            &&& s1 == s0
            &&& r is Ok
        } else {
            let again = t1[at + 1].value as u32;
            let waiting = State { addressing: Some(port_id), ..s0 };
            &&& t1.len() >= at + 3
            &&& t1[at + 1] == load_of(addr, again)
            &&& if raw & 0x20_0000 != 0x20_0000 {
                &&& t1.len() == at + 3
                &&& t1[at + 2] == store_of(addr, port_store(again, 0x2_0010))
                &&& s1 == waiting
                &&& r is Ok
            } else {
                &&& t1[at + 2] == store_of(addr, port_store(again, 0x20_0000))
                &&& commanded(setup, waiting, s1, t1.subrange(0, at + 3), t1, Trb::enable_slot(), r)
            }
        }
    }
}

/// The device that a slot gets: it is in order, at the root hub port
/// `root_port`, not configured, with an empty control pipe over `ring`, the
/// doorbell of its slot, a data buffer of zeros at `data_buff_addr`, no
/// pipes, and it is being addressed.
pub open spec fn device_made(
    setup: Setup,
    slot_id: u8,
    root_port: u8,
    ring: RingModel,
    data_buff_addr: u64,
    input_context_addr: u64,
    device: Device,
) -> bool {
    &&& device.slot.wf()
    &&& device.slot.slot_id == slot_id
    &&& device.slot.input_context == (InputContext { root_port, config_value: 0 })
    &&& device.slot.default_control_pipe.ring() == ring
    &&& device.slot.doorbell.addr() == setup.doorbells + 4 * slot_id
    &&& device.slot.data_buff_addr == data_buff_addr
    &&& device.slot.data_buff@ == Seq::new(256, |i: int| 0u8)
    &&& device.slot.mouse_pipe is None
    &&& device.slot.keyboard_pipe is None
    &&& device.phase matches DevicePhase::Addressing(addressing)
    &&& addressing.mouse == setup.mouse
    &&& addressing.keyboard == setup.keyboard
    &&& device.input_context_addr == input_context_addr
}

/// The memory of a new device: its transfer ring, the address of its data
/// buffer and the address of its input context.
pub struct DeviceMemory {
    pub ring: RingModel,
    pub data_buff_addr: u64,
    pub input_context_addr: u64,
}

/// What obtaining the memory of a new device does on the requests of
/// `granted` from index `at` on: where the requests end, and the memory.
///
/// Memory is asked for three times, each time on a 64-byte boundary: 16
/// bytes for each slot of the transfer ring, then the 256 bytes of the data
/// buffer, then the bytes of the input context. The first request turned
/// down ends the requests with `NotEnoughMemory`; memory that no ring can be
/// made of gives the error of [`ring_made`].
pub open spec fn device_memory_run(granted: Seq<Allocation>, at: int) -> Option<
    (int, PciResult<DeviceMemory>),
> {
    if !(0 <= at < granted.len() && asked(granted, at, (16 * RING_SLOTS) as usize, 64, 0x1_0000)) {
        None
    } else {
        match granted[at].address {
            None => Some((at + 1, Err(not_enough_memory()))),
            Some(base) => if !(at + 1 < granted.len() && asked(granted, at + 1, 256, 64, 4096)) {
                None
            } else {
                match granted[at + 1].address {
                    None => Some((at + 2, Err(not_enough_memory()))),
                    Some(data_buff_addr) => if !(at + 2 < granted.len() && asked(
                        granted,
                        at + 2,
                        INPUT_CONTEXT_BYTES,
                        64,
                        4096,
                    )) {
                        None
                    } else {
                        match granted[at + 2].address {
                            None => Some((at + 3, Err(not_enough_memory()))),
                            Some(input_context_addr) => match ring_made(base, RING_SLOTS) {
                                Err(e) => Some((at + 3, Err(e))),
                                Ok(ring) => Some(
                                    (
                                        at + 3,
                                        Ok(DeviceMemory { ring, data_buff_addr, input_context_addr }),
                                    ),
                                ),
                            },
                        }
                    },
                }
            },
        }
    }
}

/// What the completion of the command that asked for a slot does, where
/// the controller granted the slot `slot_id`.
///
/// The slot is refused with `InvalidSlot`, and nothing changes, where its
/// number is zero or above the number of slots, where the driver has as
/// many devices as slots or has a device in this slot, or where no port
/// waits for a slot. Otherwise the memory of the device is obtained, see
/// [`device_memory_run`], which fails without changing anything; the
/// device is put behind the others, see [`device_made`]; no port waits for
/// a slot any longer; and the command that gives the device its address is
/// issued, see [`commanded`].
pub open spec fn slot_enabled(
    setup: Setup,
    s0: State,
    s1: State,
    t0: Seq<Access>,
    t1: Seq<Access>,
    granted: Seq<Allocation>,
    at: int,
    slot_id: u8,
    r: PciResult,
) -> bool {
    if slot_id == 0 || slot_id > setup.max_slots || s0.devices.len() >= setup.max_slots
        || position(s0.devices, slot_id, 0) is Some || s0.addressing is None {
        &&& r is Err
        &&& r->Err_0 == invalid_slot(slot_id)
        &&& s1 == s0
        &&& t1 == t0
        &&& granted.len() == at
    } else {
        match device_memory_run(granted, at) {
            None => false,
            Some((end, Err(e))) => {
                &&& end == granted.len()
                &&& r is Err
                &&& r->Err_0 == e
                &&& s1 == s0
                &&& t1 == t0
            },
            Some((end, Ok(memory))) => {
                &&& end == granted.len()
                &&& s1.devices.len() == s0.devices.len() + 1
                &&& device_made(
                    setup,
                    slot_id,
                    s0.addressing->Some_0,
                    memory.ring,
                    memory.data_buff_addr,
                    memory.input_context_addr,
                    s1.devices.last(),
                )
                &&& commanded(
                    setup,
                    State {
                        command_ring: s0.command_ring,
                        devices: s0.devices.push(s1.devices.last()),
                        addressing: None,
                    },
                    s1,
                    t0,
                    t1,
                    Trb::address_device(memory.input_context_addr, slot_id),
                    r,
                )
            },
        }
    }
}

/// What the completion of the command that gave a device its address does
/// to the device (`before` and `after`) and to the accesses made.
///
/// A device that is not being addressed is left as it is, and the event is
/// refused with `UnexpectedTransfer`. Otherwise the configuration
/// descriptor is asked for on the default control pipe of the device, and
/// the device enters the configuration phase with the drivers it has;
/// where the ring of the pipe has no room for the transfer, the device
/// stays as it is and the event fails with `Full`.
pub open spec fn device_addressed(
    before: Device,
    after: Device,
    t0: Seq<Access>,
    t1: Seq<Access>,
    r: PciResult,
) -> bool {
    &&& after.input_context_addr == before.input_context_addr
    &&& after.slot.slot_id == before.slot.slot_id
    &&& after.slot.input_context == before.slot.input_context
    &&& after.slot.doorbell == before.slot.doorbell
    &&& after.slot.data_buff_addr == before.slot.data_buff_addr
    &&& after.slot.data_buff == before.slot.data_buff
    &&& after.slot.mouse_pipe == before.slot.mouse_pipe
    &&& after.slot.keyboard_pipe == before.slot.keyboard_pipe
    &&& match before.phase {
        DevicePhase::Addressing(addressing) => if before.slot.default_control_pipe.ring().free()
            < 3 {
            &&& r is Err
            &&& r->Err_0 == ring_full()
            &&& after.phase == before.phase
            &&& after.slot.default_control_pipe.ring() == before.slot.default_control_pipe.ring()
            &&& t1 == t0
        } else {
            &&& r is Ok
            &&& after.phase matches DevicePhase::Configuration(configuration)
            &&& configuration.mouse() == addressing.mouse
            &&& configuration.keyboard() == addressing.keyboard
            &&& after.slot.default_control_pipe.ring()
                == before.slot.default_control_pipe.ring().enqueue_all(
                in_data_transfer(Phase1::read_configuration(), before.slot.data_buff_addr, 256),
            )
            &&& t1 == t0 + transfer_accesses(
                before.slot.default_control_pipe.ring(),
                in_data_transfer(Phase1::read_configuration(), before.slot.data_buff_addr, 256),
                before.slot.doorbell.addr(),
                1,
            )
        },
        _ => {
            &&& r is Err
            &&& r->Err_0 == unexpected_transfer()
            &&& after.phase == before.phase
            &&& after.slot.default_control_pipe.ring() == before.slot.default_control_pipe.ring()
            &&& t1 == t0
        },
    }
}

/// What the completion of the command that gave the device in the slot
/// `slot_id` its address does: a slot without a device is refused with
/// `InvalidSlot`; the device is handled as [`device_addressed`] says, and
/// nothing else changes.
pub open spec fn addressed(
    s0: State,
    s1: State,
    t0: Seq<Access>,
    t1: Seq<Access>,
    slot_id: u8,
    r: PciResult,
) -> bool {
    &&& s1.command_ring == s0.command_ring
    &&& s1.addressing == s0.addressing
    &&& match position(s0.devices, slot_id, 0) {
        None => {
            &&& r is Err
            &&& r->Err_0 == invalid_slot(slot_id)
            &&& s1.devices == s0.devices
            &&& t1 == t0
        },
        Some(index) => {
            &&& s1.devices.len() == s0.devices.len()
            &&& s1.devices == s0.devices.update(index, s1.devices[index])
            &&& device_addressed(s0.devices[index], s1.devices[index], t0, t1, r)
        },
    }
}

/// What the completion of the command that configured the endpoints of
/// the device in the slot `slot_id` does: a slot without a device is
/// refused with `InvalidSlot`; the pipes of the device are armed as
/// [`armed`] says, and nothing else changes.
pub open spec fn endpoints_configured(
    s0: State,
    s1: State,
    t0: Seq<Access>,
    t1: Seq<Access>,
    slot_id: u8,
    r: PciResult,
) -> bool {
    &&& s1.command_ring == s0.command_ring
    &&& s1.addressing == s0.addressing
    &&& match position(s0.devices, slot_id, 0) {
        None => {
            &&& r is Err
            &&& r->Err_0 == invalid_slot(slot_id)
            &&& s1.devices == s0.devices
            &&& t1 == t0
        },
        Some(index) => {
            &&& s1.devices.len() == s0.devices.len()
            &&& s1.devices == s0.devices.update(index, s1.devices[index])
            &&& s1.devices[index].phase == s0.devices[index].phase
            &&& s1.devices[index].input_context_addr == s0.devices[index].input_context_addr
            &&& armed(s0.devices[index].slot, s1.devices[index].slot, t0, t1, r)
        },
    }
}

/// What handling the completion of the command at `pointer` with the code
/// `code` for the slot `slot_id` does.
///
/// A pointer that is not that of an outstanding command is refused with
/// `NothingPending` and changes nothing. Otherwise the commands up to the
/// one at the pointer are taken off the command ring. A command that
/// failed is reported with `CompletionFailed` and nothing more is done.
/// What is done for a command that succeeded goes by what it was for: a
/// slot, see [`slot_enabled`]; an address, see [`addressed`]; the
/// configuration of endpoints, see [`endpoints_configured`]; anything
/// else, nothing.
pub open spec fn command_completed(
    setup: Setup,
    s0: State,
    s1: State,
    t0: Seq<Access>,
    t1: Seq<Access>,
    granted: Seq<Allocation>,
    at: int,
    pointer: u64,
    code: u8,
    slot_id: u8,
    r: PciResult,
) -> bool {
    match completed_block(s0.command_ring, pointer) {
        None => {
            &&& r is Err
            &&& r->Err_0 == nothing_pending()
            &&& s1 == s0
            &&& t1 == t0
            &&& granted.len() == at
        },
        Some((trb, taken)) => {
            let released = State { command_ring: s0.command_ring.release(taken), ..s0 };
            if code != 1 {
                &&& r is Err
                &&& r->Err_0 == completion_failed(code)
                &&& s1 == released
                &&& t1 == t0
                &&& granted.len() == at
            } else if trb.trb_type() == 9 {
                slot_enabled(setup, released, s1, t0, t1, granted, at, slot_id, r)
            } else if trb.trb_type() == 11 {
                addressed(released, s1, t0, t1, slot_id, r) && granted.len() == at
            } else if trb.trb_type() == 12 {
                endpoints_configured(released, s1, t0, t1, slot_id, r) && granted.len() == at
            } else {
                &&& r is Ok
                &&& s1 == released
                &&& t1 == t0
                &&& granted.len() == at
            }
        },
    }
}

/// What [`transfer_handled`] says of a transfer for the device with the
/// index `index`, where `tm` are the accesses made when the event had been
/// handed to the device and `handed` is what that gave.
pub open spec fn transfer_handled_via(
    tm: Seq<Access>,
    handed: PciResult<(Option<InputReport>, bool)>,
    index: int,
    setup: Setup,
    s0: State,
    s1: State,
    t0: Seq<Access>,
    t1: Seq<Access>,
    granted: Seq<Allocation>,
    at: int,
    event: TransferEvent,
    r: PciResult<Option<InputReport>>,
) -> bool {
    let configure = Trb::configure_endpoint(s0.devices[index].input_context_addr, event.slot_id);
    &&& s1.addressing == s0.addressing
    &&& s1.devices.len() == s0.devices.len()
    &&& s1.devices == s0.devices.update(index, s1.devices[index])
    &&& delivered(s0.devices[index], s1.devices[index], t0, tm, granted, at, event, handed)
    &&& match handed {
        Err(e) => {
            &&& r is Err
            &&& r->Err_0 == e
            &&& s1.command_ring == s0.command_ring
            &&& t1 == tm
        },
        Ok((report, due)) => if due {
            &&& commanded(setup, State { devices: s1.devices, ..s0 }, s1, tm, t1, configure, done(r))
            &&& r matches Ok(given) ==> given == report
        } else {
            &&& r is Ok
            &&& r->Ok_0 == report
            &&& s1.command_ring == s0.command_ring
            &&& t1 == tm
        },
    }
}

/// What handling the completion of a transfer does.
///
/// An event for a slot without a device is refused with `InvalidSlot` and
/// changes nothing. Otherwise the event is handed to the device, see
/// [`delivered`]; where that gave the device its pipes, the command that
/// configures its endpoints is issued, see [`commanded`]. The report that
/// the event carried, if it carried one, is handed out. No other device
/// changes.
pub open spec fn transfer_handled(
    setup: Setup,
    s0: State,
    s1: State,
    t0: Seq<Access>,
    t1: Seq<Access>,
    granted: Seq<Allocation>,
    at: int,
    event: TransferEvent,
    r: PciResult<Option<InputReport>>,
) -> bool {
    match position(s0.devices, event.slot_id, 0) {
        None => {
            &&& r is Err
            &&& r->Err_0 == invalid_slot(event.slot_id)
            &&& s1 == s0
            &&& t1 == t0
            &&& granted.len() == at
        },
        Some(index) => exists|tm: Seq<Access>, handed: PciResult<(Option<InputReport>, bool)>|
            #[trigger] transfer_handled_via(
                tm,
                handed,
                index,
                setup,
                s0,
                s1,
                t0,
                t1,
                granted,
                at,
                event,
                r,
            ),
    }
}

/// What handling `event` does to the driver (`s0` before, `s1` after),
/// with the accesses `t0` made before and `t1` after, the requests of
/// `granted` from index `at` on, and the result `r`: the report of an input
/// device, if the event carried one.
pub open spec fn event_handled(
    setup: Setup,
    s0: State,
    s1: State,
    t0: Seq<Access>,
    t1: Seq<Access>,
    granted: Seq<Allocation>,
    at: int,
    event: Event,
    r: PciResult<Option<InputReport>>,
) -> bool {
    match event {
        Event::PortStatusChange { port_id, .. } => {
            &&& port_changed(setup, s0, s1, t0, t1, port_id, done(r))
            &&& r matches Ok(report) ==> report is None
            &&& granted.len() == at
        },
        Event::CommandCompletion { command_trb_pointer, completion_code, slot_id } => {
            &&& command_completed(
                setup,
                s0,
                s1,
                t0,
                t1,
                granted,
                at,
                command_trb_pointer,
                completion_code,
                slot_id,
                done(r),
            )
            &&& r matches Ok(report) ==> report is None
        },
        Event::Transfer {
            trb_pointer,
            residual_length,
            completion_code,
            endpoint_id,
            slot_id,
        } => transfer_handled(
            setup,
            s0,
            s1,
            t0,
            t1,
            granted,
            at,
            TransferEvent {
                trb_pointer,
                trb_transfer_length: residual_length,
                completion_code,
                endpoint_id,
                slot_id,
            },
            r,
        ),
        Event::NotSupport { .. } => {
            &&& r is Ok
            &&& r->Ok_0 is None
            &&& s1 == s0
            &&& t1 == t0
            &&& granted.len() == at
        },
    }
}

/// The first `n` events on the event ring `ring`, whose segments hold
/// `memory`, each with the address up to which the ring is emptied by it.
pub open spec fn taken(ring: EventRingModel, memory: Seq<Vec<Trb>>, n: nat) -> Seq<Dequeued> {
    Seq::new(
        n,
        |j: int|
            Dequeued {
                event: Event::decode(ring.advance_by(j as nat).front(memory)->Some_0),
                next_pointer: ring.advance_by((j + 1) as nat).dequeue_pointer() as u64,
            },
    )
}

/// What [`events_handled`] says of the last of the events `events`, where
/// `sm` is the driver when the events before it were handled, `tm` the
/// accesses made until then, `am` the number of requests made until then,
/// and `tq` the accesses made when the controller had been told of the
/// event: the controller is told up to where the event ring is emptied by
/// the event, and the event is handled.
pub open spec fn last_handled(
    sm: State,
    tm: Seq<Access>,
    tq: Seq<Access>,
    am: int,
    setup: Setup,
    events: Seq<Dequeued>,
    outcomes: Seq<PciResult<Option<InputReport>>>,
    s1: State,
    t1: Seq<Access>,
    granted: Seq<Allocation>,
) -> bool {
    &&& events.len() >= 1
    &&& outcomes.len() == events.len()
    &&& 0 <= am <= granted.len()
    &&& write_step(tm, tq, setup.erdp, events.last().next_pointer >> 4)
    &&& event_handled(setup, sm, s1, tq, t1, granted, am, events.last().event, outcomes.last())
}

/// What handling the events `events` in turn does to the driver (`s0`
/// before, `s1` after), with the accesses `t0` made before and `t1` after
/// and the requests of `granted` from index `at` on; `outcomes` is what
/// handling each event gave.
///
/// For each event in turn, the controller is first told up to where the
/// event ring is emptied by it, through a store into the dequeue pointer;
/// then the event is handled, see [`event_handled`], whatever became of
/// the events before it.
pub open spec fn events_handled(
    setup: Setup,
    events: Seq<Dequeued>,
    outcomes: Seq<PciResult<Option<InputReport>>>,
    s0: State,
    s1: State,
    t0: Seq<Access>,
    t1: Seq<Access>,
    granted: Seq<Allocation>,
    at: int,
) -> bool
    decreases events.len(),
{
    if events.len() == 0 {
        &&& outcomes.len() == 0
        &&& s1 == s0
        &&& t1 == t0
        &&& granted.len() == at
    } else {
        exists|sm: State, tm: Seq<Access>, tq: Seq<Access>, am: int|
            #[trigger] last_handled(sm, tm, tq, am, setup, events, outcomes, s1, t1, granted)
                && events_handled(
                setup,
                events.drop_last(),
                outcomes.drop_last(),
                s0,
                sm,
                t0,
                tm,
                granted.subrange(0, am),
                at,
            )
    }
}

/// Progress is transitive.
pub proof fn lemma_progressed_transitive(a: Seq<Device>, b: Seq<Device>, c: Seq<Device>)
    requires
        progressed(a, b),
        progressed(b, c),
    ensures
        progressed(a, c),
{
    assert forall|i: int| 0 <= i < a.len() implies (#[trigger] c[i]).slot.slot_id
        == a[i].slot.slot_id && c[i].phase.rank() >= a[i].phase.rank() by {
        assert(b[i].slot.slot_id == a[i].slot.slot_id);
        assert(c[i].slot.slot_id == b[i].slot.slot_id);
    }
}

/// The error for a slot that the controller names and the driver does not
/// know, or cannot take.
pub open spec fn invalid_slot(slot_id: u8) -> PciError {
    PciError::FailedOperateDevice(DeviceReason::InvalidSlot { slot_id })
}

impl XhcController {
    /// The driver is in order: so are its rings and the slots of its
    /// devices.
    pub closed spec fn wf(&self) -> bool {
        &&& self.command_ring.wf()
        &&& self.event_ring.wf()
        &&& self.devices@.len() <= self.max_slots
        &&& forall|i: int| 0 <= i < self.devices@.len() ==> (#[trigger] self.devices@[i]).slot.wf()
    }

    /// The registers of the controller.
    pub closed spec fn registers(&self) -> Registers {
        self.registers
    }

    /// The address of the status and control register of the root hub port
    /// `port_id`, counted from one.
    pub open spec fn port_addr(&self, port_id: u8) -> int {
        self.registers().operational_offset().offset() + 0x400 + 0x10 * (port_id - 1)
    }

    /// The event ring of the controller.
    pub closed spec fn event_ring(&self) -> EventRingModel {
        self.event_ring@
    }

    /// The number of devices that have a slot.
    pub open spec fn device_count(&self) -> nat {
        self.attached().len()
    }

    /// The devices that have a slot.
    pub closed spec fn attached(&self) -> Seq<Device> {
        self.devices@
    }

    /// The device in the slot `slot_id`, if there is one.
    pub open spec fn device(&self, slot_id: u8) -> Option<Device> {
        match position(self.attached(), slot_id, 0) {
            Some(index) => Some(self.attached()[index]),
            None => None,
        }
    }

    /// What was found out when the controller was brought up is the same in
    /// `self` and `other`.
    pub open spec fn same_setup(&self, other: &Self) -> bool {
        &&& self.registers() == other.registers()
        &&& self.doorbells() == other.doorbells()
        &&& self.max_slots() == other.max_slots()
        &&& self.drivers() == other.drivers()
    }

    /// The root hub port whose device gets the next slot, if a port is
    /// being reset or waits for a slot.
    pub closed spec fn addressing(&self) -> Option<u8> {
        self.addressing_port
    }

    /// What changes of the driver while it handles events.
    pub open spec fn state(&self) -> State {
        State {
            command_ring: self.command_ring(),
            devices: self.attached(),
            addressing: self.addressing(),
        }
    }

    /// What was found out when the controller was brought up.
    pub open spec fn setup(&self) -> Setup {
        Setup {
            ports: self.port_addr(1),
            doorbells: self.doorbells(),
            erdp: self.registers().runtime().interrupter.erdp.field(),
            max_slots: self.max_slots(),
            mouse: self.drivers().0,
            keyboard: self.drivers().1,
        }
    }

    /// The number of device slots the driver uses.
    pub closed spec fn max_slots(&self) -> u8 {
        self.max_slots
    }

    /// The address at which the doorbell array begins.
    pub closed spec fn doorbells(&self) -> usize {
        self.doorbells.offset()
    }

    /// The drivers that the devices are given.
    pub closed spec fn drivers(&self) -> (MouseDriver, KeyboardDriver) {
        (self.mouse, self.keyboard)
    }

    /// What [`XhcController::new`] does on the accesses of `t` from index
    /// `at` on, given the allocator's record `granted`, of which the requests
    /// from index `first` on are those of this call, and what it finds out:
    /// what [`Registers::bring_up`] does, and then the search for the
    /// doorbell array and a load of the number of enabled slots.
    pub open spec fn new_run(
        registers: Registers,
        t: Seq<Access>,
        at: int,
        granted: Seq<Allocation>,
        first: int,
    ) -> Option<(int, PciResult<BroughtUp>)> {
        match registers.bring_up_run(t, at, granted, first) {
            None => None,
            Some((a1, Err(e))) => Some((a1, Err(e))),
            Some((a1, Ok((command_ring, segment)))) => match ring_made(
                command_ring,
                COMMAND_RING_SLOTS,
            ) {
                Err(e) => Some((a1, Err(e))),
                Ok(_) => match DoorbellRegistersOffset::new_run(
                    t,
                    a1,
                    registers.spec_mmio_addr().addr(),
                    registers.capability().db_off().field(),
                ) {
                    None => None,
                    Some((a2, Err(e))) => Some((a2, Err(e))),
                    Some((a2, Ok(doorbells))) => if registers.operational().max_slots_en.field().loaded_at(
                        t,
                        a2,
                    ) {
                        Some(
                            (
                                a2 + 1,
                                Ok(
                                    BroughtUp {
                                        command_ring,
                                        segment,
                                        doorbells,
                                        max_slots: registers.operational().max_slots_en.field().value_at(
                                            t,
                                            a2,
                                        ) as u8,
                                    },
                                ),
                            ),
                        )
                    } else {
                        None
                    },
                },
            },
        }
    }

    /// Brings the controller with the registers `registers` up to the point
    /// where it can be run.
    ///
    /// The registers are brought up as [`Registers::bring_up`] does, which
    /// obtains and registers the command ring and the event ring; then the
    /// doorbell array is found and the number of enabled slots is read.
    /// The first step that fails ends the call with its error, and no later
    /// step is begun. The memory that is obtained is expected to hold
    /// zeros.
    pub fn new<M: VolatileMemory, A: MemoryAllocatable>(
        mem: &mut M,
        allocator: &mut A,
        registers: Registers,
        mouse: MouseDriver,
        keyboard: KeyboardDriver,
    ) -> (r: PciResult<Self>)
        ensures
            extends(old(mem).history(), final(mem).history()),
            extends_requests(old(allocator).granted(), final(allocator).granted(), 4),
            registers.bring_up_asks(
                final(mem).history(),
                old(mem).history().len() as int,
                final(allocator).granted(),
                old(allocator).granted().len() as int,
            ),
            bring_up_requests(final(allocator).granted(), old(allocator).granted().len() as int),
            match Self::new_run(
                registers,
                final(mem).history(),
                old(mem).history().len() as int,
                final(allocator).granted(),
                old(allocator).granted().len() as int,
            ) {
                Some((end, Ok(found))) => end == final(mem).history().len() && (r matches Ok(
                    controller,
                ) && controller.wf() && controller.registers() == registers
                    && controller.device_count() == 0 && controller.drivers() == (mouse, keyboard)
                    && controller.max_slots() == found.max_slots && controller.doorbells()
                    == found.doorbells && controller.command_ring() == (RingModel {
                    slots: Seq::new(
                        COMMAND_RING_SLOTS as nat,
                        |i: int| Trb { parameter: 0, status: 0, control: 0 },
                    ),
                    base: found.command_ring,
                    enqueue: 0,
                    dequeue: 0,
                    outstanding: Seq::empty(),
                    cycle: true,
                }) && controller.event_ring() == (EventRingModel {
                    segments: seq![found.segment],
                    segment: 0,
                    index: 0,
                    cycle: true,
                })),
                Some((end, Err(e))) => end == final(mem).history().len() && r == Err::<
                    Self,
                    PciError,
                >(e),
                None => false,
            },
    {
        let ghost t0 = mem.history();
        let ghost at = t0.len() as int;
        let ghost first = allocator.granted().len() as int;
        let (command_ring_addr, event_ring) = match registers.bring_up(mem, allocator) {
            Ok(made) => made,
            Err(e) => {
                return Err(e);
            },
        };
        let ghost t1 = mem.history();
        let ghost granted = allocator.granted();
        let command_ring = match Ring::new(command_ring_addr, COMMAND_RING_SLOTS) {
            Ok(ring) => ring,
            Err(e) => {
                return Err(e);
            },
        };
        let db_off = registers.capability_registers().db_off();
        let found = DoorbellRegistersOffset::new(mem, registers.mmio_addr(), &db_off);
        let ghost t2 = mem.history();
        proof {
            lemma_extends_transitive(t0, t1, t2);
            registers.lemma_bring_up_stable(t1, t2, at, granted, first);
        }
        let doorbells = match found {
            Ok(doorbells) => doorbells,
            Err(e) => {
                return Err(e);
            },
        };
        let max_slots = registers.operational_registers().max_slots_en.read_volatile(mem);
        proof {
            let t3 = mem.history();
            lemma_extends_transitive(t0, t2, t3);
            lemma_extends_transitive(t1, t2, t3);
            registers.lemma_bring_up_stable(t1, t3, at, granted, first);
        }
        Ok(
            XhcController {
                registers,
                doorbells,
                command_ring,
                event_ring,
                devices: Vec::new(),
                max_slots,
                addressing_port: None,
                mouse,
                keyboard,
            },
        )
    }

    /// Lets the controller run, by one load and one store of its command
    /// register.
    pub fn run<M: VolatileMemory>(&self, mem: &mut M)
        ensures
            write_step(
                old(mem).history(),
                final(mem).history(),
                self.registers().operational().run_stop.field(),
                1,
            ),
    {
        self.registers.run(mem);
    }

    /// The address up to which the event ring was emptied.
    pub fn event_ring_dequeue_pointer(&self) -> (pointer: u64)
        requires
            self.wf(),
        ensures
            pointer == self.event_ring().dequeue_pointer(),
    {
        self.event_ring.dequeue_pointer()
    }

    /// The command ring of the controller.
    pub closed spec fn command_ring(&self) -> RingModel {
        self.command_ring@
    }

    /// The address of the first slot of the command ring.
    pub fn command_ring_base(&self) -> (base: u64)
        ensures
            base == self.command_ring().base,
    {
        self.command_ring.base()
    }

    /// The block in the slot `index` of the command ring, or `None` where
    /// the ring has no such slot.
    pub fn command_ring_slot(&self, index: usize) -> (trb: Option<Trb>)
        ensures
            index < self.command_ring().capacity() ==> trb == Some(
                self.command_ring().slots[index as int],
            ),
            index >= self.command_ring().capacity() ==> trb is None,
    {
        self.command_ring.read(index)
    }

    /// The number of segments of the event ring.
    pub fn event_ring_segments(&self) -> (count: usize)
        ensures
            count == self.event_ring().segments.len(),
    {
        self.event_ring.segments_count()
    }

    /// The segment with the number `index` of the event ring, or `None`
    /// where the ring has no such segment.
    pub fn event_ring_segment(&self, index: usize) -> (segment: Option<Segment>)
        ensures
            index < self.event_ring().segments.len() ==> segment == Some(
                self.event_ring().segments[index as int],
            ),
            index >= self.event_ring().segments.len() ==> segment is None,
    {
        self.event_ring.segment(index)
    }

    /// The number of devices that have a slot.
    pub fn devices(&self) -> (count: usize)
        ensures
            count == self.device_count(),
    {
        self.devices.len()
    }

    fn find(&self, slot_id: u8) -> (index: Option<usize>)
        ensures
            index matches Some(i) ==> i < self.devices@.len() && self.devices@[i as int].slot.slot_id
                == slot_id,
            position(self.devices@, slot_id, 0) == match index {
                Some(i) => Some(i as int),
                None => None,
            },
    {
        let mut i: usize = 0;
        while i < self.devices.len()
            invariant
                i <= self.devices@.len(),
                position(self.devices@, slot_id, 0) == position(self.devices@, slot_id, i as int),
            decreases self.devices@.len() - i,
        {
            if self.devices[i].slot.slot_id == slot_id {
                return Some(i);
            }
            i = i + 1;
        }
        None
    }

    /// The numbers of the interfaces through which the device in the slot
    /// `slot_id` is used; `None` where there is no such device or it is not
    /// configured yet.
    pub fn interface_nums(&self, slot_id: u8) -> (nums: Option<Vec<u8>>)
        ensures
            match self.device(slot_id) {
                Some(device) => match interfaces_of(device.phase) {
                    Some(numbers) => nums matches Some(found) && found@ == numbers,
                    None => nums is None,
                },
                None => nums is None,
            },
    {
        match self.find(slot_id) {
            Some(i) => self.devices[i].phase.interface_nums(),
            None => None,
        }
    }

    /// How far the device in the slot `slot_id` has come: 0 while it is
    /// addressed, 1 while it is configured, 2 once it is used. `None` where
    /// there is no such device.
    pub fn phase_rank(&self, slot_id: u8) -> (rank: Option<u8>)
        ensures
            match self.device(slot_id) {
                Some(device) => rank matches Some(n) && n == device.phase.rank(),
                None => rank is None,
            },
    {
        match self.find(slot_id) {
            Some(i) => Some(
                match &self.devices[i].phase {
                    DevicePhase::Addressing(_) => 0,
                    DevicePhase::Configuration(_) => 1,
                    DevicePhase::Operational(_) => 2,
                },
            ),
            None => None,
        }
    }

    /// Starts the reset of the root hub port `port_id`, counted from one, if
    /// a device is attached to it; see [`port_reset`].
    pub fn reset_port<M: VolatileMemory>(&mut self, mem: &mut M, port_id: u8) -> (r: PciResult)
        requires
            old(self).wf(),
        ensures
            final(self).wf(),
            final(self).event_ring() == old(self).event_ring(),
            final(self).same_setup(old(self)),
            port_reset(
                old(self).setup(),
                old(self).state(),
                final(self).state(),
                old(mem).history(),
                final(mem).history(),
                port_id,
                r,
            ),
    {
        if port_id == 0 {
            return Err(PciError::FailedOperateDevice(DeviceReason::InvalidSlot { slot_id: 0 }));
        }
        let _ = self.start_reset(mem, port_id);
        Ok(())
    }

    fn start_reset<M: VolatileMemory>(&mut self, mem: &mut M, port_id: u8) -> (connected: bool)
        requires
            old(self).wf(),
            port_id >= 1,
        ensures
            final(self).wf(),
            final(self).event_ring() == old(self).event_ring(),
            final(self).same_setup(old(self)),
            port_reset(
                old(self).setup(),
                old(self).state(),
                final(self).state(),
                old(mem).history(),
                final(mem).history(),
                port_id,
                Ok(()),
            ),
            connected == ((final(mem).history()[old(mem).history().len() as int].value as u32) & 0x1
                == 0x1),
    {
        let port = PortStatusControl::new(self.registers.operational_offset(), port_id);
        let raw = port.read(mem);
        proof {
            assert(raw as u64 as u32 == raw);
        }
        let connected = PortStatusControl::is_connected(raw);
        if connected {
            let again = port.act(mem, PORT_RESET | PORT_CONNECT_CHANGE);
            assert(0x10u32 | 0x2_0000u32 == 0x2_0010u32) by (bit_vector);
            proof {
                assert(again as u64 as u32 == again);
            }
            self.addressing_port = Some(port_id);
        }
        connected
    }

    /// Starts the reset of the first root hub port that a device is
    /// attached to, and returns the port.
    ///
    /// The number of ports is loaded from the capability registers; what
    /// follows is said by [`ports_reset`].
    pub fn reset_first_connected_port<M: VolatileMemory>(&mut self, mem: &mut M) -> (found: Option<
        u8,
    >)
        requires
            old(self).wf(),
        ensures
            final(self).wf(),
            final(self).event_ring() == old(self).event_ring(),
            final(self).same_setup(old(self)),
            old(self).registers().capability().hcs_params1().max_ports().field().loaded_at(
                final(mem).history(),
                old(mem).history().len() as int,
            ),
            ports_reset(
                old(self).setup(),
                old(self).state(),
                final(self).state(),
                final(mem).history().take(old(mem).history().len() as int + 1),
                final(mem).history(),
                old(self).registers().capability().hcs_params1().max_ports().field().value_at(
                    final(mem).history(),
                    old(mem).history().len() as int,
                ) as int,
                found,
            ),
    {
        let ghost setup = self.setup();
        let ghost t0 = mem.history();
        let last = self.registers.capability_registers().hcs_params1().max_ports().read_volatile(mem);
        let ghost t1 = mem.history();
        let ghost at = t1.len() as int;
        let ghost field = old(self).registers().capability().hcs_params1().max_ports().field();
        let mut passed: u8 = 0;
        while passed < last
            invariant
                passed <= last,
                t0 == old(mem).history(),
                at == t0.len() + 1,
                field == old(self).registers().capability().hcs_params1().max_ports().field(),
                field.loaded_at(t1, t0.len() as int),
                last == field.value_at(t1, t0.len() as int),
                self.wf(),
                self.same_setup(old(self)),
                setup == old(self).setup(),
                self.event_ring() == old(self).event_ring(),
                self.state() == old(self).state(),
                at == t1.len(),
                extends(t1, mem.history()),
                mem.history().len() == at + passed,
                ports_passed(setup, mem.history(), at, passed as int),
            decreases last - passed,
        {
            let ghost tm = mem.history();
            let port_id = passed + 1;
            let connected = self.start_reset(mem, port_id);
            proof {
                let t = mem.history();
                lemma_extends_transitive(t1, tm, t);
                assert forall|i: int| 0 <= i < passed implies #[trigger] port_passed(
                    setup,
                    t,
                    at,
                    i,
                ) by {
                    assert(port_passed(setup, tm, at, i));
                    assert(t[at + i] == tm[at + i]);
                }
            }
            if connected {
                proof {
                    let t = mem.history();
                    assert(t.take(at + passed) =~= tm);
                    assert(!port_passed(setup, t, at, passed as int));
                    assert(t.take(t0.len() as int + 1) =~= t1);
                    assert(t[t0.len() as int] == t1[t0.len() as int]);
                }
                return Some(port_id);
            }
            proof {
                assert(port_passed(setup, mem.history(), at, passed as int));
            }
            passed = passed + 1;
        }
        proof {
            assert(mem.history().take(t0.len() as int + 1) =~= t1);
            assert(mem.history()[t0.len() as int] == t1[t0.len() as int]);
        }
        None
    }

    fn command<M: VolatileMemory>(&mut self, mem: &mut M, trb: Trb) -> (r: PciResult)
        requires
            old(self).wf(),
        ensures
            final(self).wf(),
            final(self).event_ring() == old(self).event_ring(),
            final(self).same_setup(old(self)),
            extends(old(mem).history(), final(mem).history()),
            commanded(
                old(self).setup(),
                old(self).state(),
                final(self).state(),
                old(mem).history(),
                final(mem).history(),
                trb,
                r,
            ),
    {
        match self.command_ring.enqueue(mem, trb) {
            Ok(_) => {
                let doorbell = Doorbell::new(self.doorbells, 0);
                doorbell.notify(mem, TARGET_COMMAND_RING, 0);
                proof {
                    assert(mem.history() =~= old(mem).history() + command_accesses(
                        old(self).command_ring(),
                        trb,
                        old(self).doorbells(),
                    ));
                }
                Ok(())
            },
            Err(e) => Err(e),
        }
    }

    fn on_port_status_change<M: VolatileMemory>(&mut self, mem: &mut M, port_id: u8) -> (r:
        PciResult)
        requires
            old(self).wf(),
        ensures
            final(self).wf(),
            final(self).event_ring() == old(self).event_ring(),
            final(self).same_setup(old(self)),
            extends(old(mem).history(), final(mem).history()),
            final(self).attached() == old(self).attached(),
            port_changed(
                old(self).setup(),
                old(self).state(),
                final(self).state(),
                old(mem).history(),
                final(mem).history(),
                port_id,
                r,
            ),
    {
        if port_id == 0 {
            return Err(PciError::FailedOperateDevice(DeviceReason::InvalidSlot { slot_id: 0 }));
        }
        let port = PortStatusControl::new(self.registers.operational_offset(), port_id);
        let raw = port.read(mem);
        proof {
            assert(raw as u64 as u32 == raw);
        }
        if !PortStatusControl::is_connected(raw) {
            return Ok(());
        }
        let ghost t0 = old(mem).history();
        if PortStatusControl::is_reset_completed(raw) {
            let again = port.act(mem, PORT_RESET_CHANGE);
            let ghost t3 = mem.history();
            self.addressing_port = Some(port_id);
            let r = self.command(mem, Trb::enable_slot());
            proof {
                let t4 = mem.history();
                assert(again as u64 as u32 == again);
                assert(t3.len() == t0.len() + 3);
                assert(t4.subrange(0, t0.len() as int + 3) =~= t3);
            }
            r
        } else {
            let again = port.act(mem, PORT_RESET | PORT_CONNECT_CHANGE);
            assert(0x10u32 | 0x2_0000u32 == 0x2_0010u32) by (bit_vector);
            proof {
                assert(again as u64 as u32 == again);
            }
            self.addressing_port = Some(port_id);
            Ok(())
        }
    }

    fn on_slot_enabled<M: VolatileMemory, A: MemoryAllocatable>(
        &mut self,
        mem: &mut M,
        allocator: &mut A,
        slot_id: u8,
    ) -> (r: PciResult)
        requires
            old(self).wf(),
        ensures
            final(self).wf(),
            final(self).event_ring() == old(self).event_ring(),
            final(self).same_setup(old(self)),
            extends(old(mem).history(), final(mem).history()),
            extends_requests(old(allocator).granted(), final(allocator).granted(), 3),
            progressed(old(self).attached(), final(self).attached()),
            others_kept(old(self).attached(), final(self).attached(), slot_id),
            slot_enabled(
                old(self).setup(),
                old(self).state(),
                final(self).state(),
                old(mem).history(),
                final(mem).history(),
                final(allocator).granted(),
                old(allocator).granted().len() as int,
                slot_id,
                r,
            ),
    {
        if slot_id == 0 || slot_id > self.max_slots || self.devices.len() >= self.max_slots as usize {
            return Err(PciError::FailedOperateDevice(DeviceReason::InvalidSlot { slot_id }));
        }
        if self.find(slot_id).is_some() {
            return Err(PciError::FailedOperateDevice(DeviceReason::InvalidSlot { slot_id }));
        }
        let root_port = match self.addressing_port {
            Some(port) => port,
            None => {
                return Err(PciError::FailedOperateDevice(DeviceReason::InvalidSlot { slot_id }));
            },
        };
        let ring_addr = match allocator.allocate_with_align(16 * RING_SLOTS, 64, 0x1_0000) {
            Some(addr) => addr.raw_address(),
            None => {
                return Err(PciError::FailedAllocate(AllocateReason::NotEnoughMemory));
            },
        };
        let data_buff_addr = match allocator.allocate_with_align(DATA_BUFF_SIZE, 64, 4096) {
            Some(addr) => addr.raw_address(),
            None => {
                return Err(PciError::FailedAllocate(AllocateReason::NotEnoughMemory));
            },
        };
        let input_context_addr = match allocator.allocate_with_align(INPUT_CONTEXT_BYTES, 64, 4096) {
            Some(addr) => addr.raw_address(),
            None => {
                return Err(PciError::FailedAllocate(AllocateReason::NotEnoughMemory));
            },
        };
        let ring = match Ring::new(ring_addr, RING_SLOTS) {
            Ok(ring) => ring,
            Err(e) => {
                return Err(e);
            },
        };
        let doorbell = Doorbell::new(self.doorbells, slot_id);
        let slot = DeviceSlot::new(slot_id, root_port, doorbell, ring, data_buff_addr);
        let device = Device {
            slot,
            phase: DevicePhase::Addressing(Phase1::new(self.mouse, self.keyboard)),
            input_context_addr,
        };
        self.devices.push(device);
        self.addressing_port = None;
        let r = self.command(mem, Trb::address_device(input_context_addr, slot_id));
        proof {
            assert(self.devices@.last() == device);
        }
        r
    }

    fn take(&mut self, index: usize) -> (device: Device)
        requires
            old(self).wf(),
            index < old(self).devices@.len(),
        ensures
            device == old(self).devices@[index as int],
            device.slot.wf(),
            final(self).wf(),
            final(self).devices@ == old(self).devices@.remove(index as int),
            final(self).event_ring() == old(self).event_ring(),
            final(self).command_ring() == old(self).command_ring(),
            final(self).addressing() == old(self).addressing(),
            final(self).same_setup(old(self)),
    {
        self.devices.remove(index)
    }

    fn put(&mut self, index: usize, device: Device)
        requires
            old(self).wf(),
            device.slot.wf(),
            index <= old(self).devices@.len(),
            old(self).devices@.len() < old(self).max_slots,
        ensures
            final(self).wf(),
            final(self).devices@ == old(self).devices@.insert(index as int, device),
            final(self).event_ring() == old(self).event_ring(),
            final(self).command_ring() == old(self).command_ring(),
            final(self).addressing() == old(self).addressing(),
            final(self).same_setup(old(self)),
    {
        self.devices.insert(index, device);
        proof {
            let after = self.devices@;
            assert forall|i: int| 0 <= i < after.len() implies (#[trigger] after[i]).slot.wf() by {
                if i < index {
                    assert(after[i] == old(self).devices@[i]);
                } else if i > index {
                    assert(after[i] == old(self).devices@[i - 1]);
                }
            }
        }
    }

    fn on_device_addressed<M: VolatileMemory>(&mut self, mem: &mut M, slot_id: u8) -> (r: PciResult)
        requires
            old(self).wf(),
        ensures
            final(self).wf(),
            final(self).event_ring() == old(self).event_ring(),
            final(self).same_setup(old(self)),
            extends(old(mem).history(), final(mem).history()),
            progressed(old(self).attached(), final(self).attached()),
            others_kept(old(self).attached(), final(self).attached(), slot_id),
            addressed(
                old(self).state(),
                final(self).state(),
                old(mem).history(),
                final(mem).history(),
                slot_id,
                r,
            ),
    {
        let index = match self.find(slot_id) {
            Some(index) => index,
            None => {
                return Err(PciError::FailedOperateDevice(DeviceReason::InvalidSlot { slot_id }));
            },
        };
        let mut device = self.take(index);
        let r = Self::address(&mut device, mem);
        self.put(index, device);
        proof {
            assert(self.devices@ =~= old(self).devices@.update(index as int, device));
        }
        r
    }

    fn address<M: VolatileMemory>(device: &mut Device, mem: &mut M) -> (r: PciResult)
        requires
            old(device).slot.wf(),
        ensures
            final(device).slot.wf(),
            final(device).phase.rank() >= old(device).phase.rank(),
            extends(old(mem).history(), final(mem).history()),
            device_addressed(*old(device), *final(device), old(mem).history(), final(mem).history(), r),
    {
        let advanced = match &device.phase {
            DevicePhase::Addressing(phase) => phase.on_address_device_completed(&mut device.slot, mem),
            _ => Err(PciError::FailedOperateDevice(DeviceReason::UnexpectedTransfer)),
        };
        match advanced {
            Ok(transition) => {
                if let Some(next) = transition.next {
                    device.phase = next;
                }
                Ok(())
            },
            Err(e) => Err(e),
        }
    }

    fn on_endpoints_configured<M: VolatileMemory>(&mut self, mem: &mut M, slot_id: u8) -> (r:
        PciResult)
        requires
            old(self).wf(),
        ensures
            final(self).wf(),
            final(self).event_ring() == old(self).event_ring(),
            final(self).same_setup(old(self)),
            extends(old(mem).history(), final(mem).history()),
            progressed(old(self).attached(), final(self).attached()),
            others_kept(old(self).attached(), final(self).attached(), slot_id),
            endpoints_configured(
                old(self).state(),
                final(self).state(),
                old(mem).history(),
                final(mem).history(),
                slot_id,
                r,
            ),
    {
        let index = match self.find(slot_id) {
            Some(index) => index,
            None => {
                return Err(PciError::FailedOperateDevice(DeviceReason::InvalidSlot { slot_id }));
            },
        };
        let mut device = self.take(index);
        let r = arm(&mut device.slot, mem);
        self.put(index, device);
        proof {
            assert(self.devices@ =~= old(self).devices@.update(index as int, device));
        }
        r
    }

    fn on_command_completion<M: VolatileMemory, A: MemoryAllocatable>(
        &mut self,
        mem: &mut M,
        allocator: &mut A,
        command_trb_pointer: u64,
        completion_code: u8,
        slot_id: u8,
    ) -> (r: PciResult)
        requires
            old(self).wf(),
        ensures
            final(self).wf(),
            final(self).event_ring() == old(self).event_ring(),
            final(self).same_setup(old(self)),
            extends(old(mem).history(), final(mem).history()),
            extends_requests(old(allocator).granted(), final(allocator).granted(), 3),
            progressed(old(self).attached(), final(self).attached()),
            others_kept(old(self).attached(), final(self).attached(), slot_id),
            command_completed(
                old(self).setup(),
                old(self).state(),
                final(self).state(),
                old(mem).history(),
                final(mem).history(),
                final(allocator).granted(),
                old(allocator).granted().len() as int,
                command_trb_pointer,
                completion_code,
                slot_id,
                r,
            ),
    {
        let trb = match self.command_ring.trb_at(command_trb_pointer) {
            Some(trb) => trb,
            None => {
                return Err(PciError::FailedOperateRing(RingReason::NothingPending));
            },
        };
        match self.command_ring.acknowledge(command_trb_pointer) {
            Ok(_) => {},
            Err(e) => {
                return Err(e);
            },
        }
        if completion_code != COMPLETION_SUCCESS {
            return Err(PciError::FailedOperateDevice(DeviceReason::CompletionFailed { completion_code }));
        }
        let trb_type = trb.trb_type();
        if trb_type == TYPE_ENABLE_SLOT {
            self.on_slot_enabled(mem, allocator, slot_id)
        } else if trb_type == TYPE_ADDRESS_DEVICE {
            self.on_device_addressed(mem, slot_id)
        } else if trb_type == TYPE_CONFIGURE_ENDPOINT {
            self.on_endpoints_configured(mem, slot_id)
        } else {
            Ok(())
        }
    }

    fn on_transfer_event<M: VolatileMemory, A: MemoryAllocatable>(
        &mut self,
        mem: &mut M,
        allocator: &mut A,
        event: TransferEvent,
    ) -> (r: PciResult<Option<InputReport>>)
        requires
            old(self).wf(),
        ensures
            final(self).wf(),
            final(self).event_ring() == old(self).event_ring(),
            final(self).same_setup(old(self)),
            extends(old(mem).history(), final(mem).history()),
            extends_requests(old(allocator).granted(), final(allocator).granted(), 4),
            progressed(old(self).attached(), final(self).attached()),
            others_kept(old(self).attached(), final(self).attached(), event.slot_id),
            transfer_handled(
                old(self).setup(),
                old(self).state(),
                final(self).state(),
                old(mem).history(),
                final(mem).history(),
                final(allocator).granted(),
                old(allocator).granted().len() as int,
                event,
                r,
            ),
    {
        let slot_id = event.slot_id;
        let index = match self.find(slot_id) {
            Some(index) => index,
            None => {
                return Err(PciError::FailedOperateDevice(DeviceReason::InvalidSlot { slot_id }));
            },
        };
        let ghost t0 = mem.history();
        let ghost at = allocator.granted().len() as int;
        let mut device = self.take(index);
        let handed = deliver(&mut device, mem, allocator, event);
        let ghost tm = mem.history();
        let ghost given = handed;
        let input_context_addr = device.input_context_addr;
        self.put(index, device);
        proof {
            assert(self.devices@ =~= old(self).devices@.update(index as int, device));
        }
        let r = match handed {
            Ok((report, configure)) => {
                if configure {
                    match self.command(mem, Trb::configure_endpoint(input_context_addr, slot_id)) {
                        Ok(_) => Ok(report),
                        Err(e) => Err(e),
                    }
                } else {
                    Ok(report)
                }
            },
            Err(e) => Err(e),
        };
        proof {
            lemma_extends_transitive(t0, tm, mem.history());
            let found = position(old(self).state().devices, event.slot_id, 0);
            assert(found == Some(index as int));
            assert(transfer_handled_via(
                tm,
                given,
                found->Some_0,
                old(self).setup(),
                old(self).state(),
                self.state(),
                t0,
                mem.history(),
                allocator.granted(),
                at,
                event,
                r,
            ));
        }
        r
    }

    /// Handles one event of the controller; see [`event_handled`].
    ///
    /// A change of a port starts the reset of the port or, once the reset
    /// has ended, asks for a slot. The completion of a command moves the
    /// device it was for one step on: a slot that was granted gets a device
    /// and an address, an addressed device is asked for its configuration,
    /// and a device whose endpoints are configured is asked for its first
    /// report. The completion of a transfer is handed to the phase of its
    /// device. Returns the report of an input device if the event carried
    /// one. No device falls back into an earlier phase, and an event leaves
    /// the devices it is not about as they are, whether it fails or not.
    pub fn process_event<M: VolatileMemory, A: MemoryAllocatable>(
        &mut self,
        mem: &mut M,
        allocator: &mut A,
        event: Event,
    ) -> (r: PciResult<Option<InputReport>>)
        requires
            old(self).wf(),
        ensures
            final(self).wf(),
            final(self).event_ring() == old(self).event_ring(),
            final(self).same_setup(old(self)),
            extends(old(mem).history(), final(mem).history()),
            extends_requests(old(allocator).granted(), final(allocator).granted(), 4),
            progressed(old(self).attached(), final(self).attached()),
            others_kept(old(self).attached(), final(self).attached(), slot_of_event(event)),
            event_handled(
                old(self).setup(),
                old(self).state(),
                final(self).state(),
                old(mem).history(),
                final(mem).history(),
                final(allocator).granted(),
                old(allocator).granted().len() as int,
                event,
                r,
            ),
    {
        match event {
            Event::PortStatusChange { port_id, .. } => match self.on_port_status_change(mem, port_id) {
                Ok(_) => Ok(None),
                Err(e) => Err(e),
            },
            Event::CommandCompletion {
                command_trb_pointer,
                completion_code,
                slot_id,
            } => match self.on_command_completion(
                mem,
                allocator,
                command_trb_pointer,
                completion_code,
                slot_id,
            ) {
                Ok(_) => Ok(None),
                Err(e) => Err(e),
            },
            Event::Transfer {
                trb_pointer,
                residual_length,
                completion_code,
                endpoint_id,
                slot_id,
            } => self.on_transfer_event(
                mem,
                allocator,
                TransferEvent {
                    trb_pointer,
                    trb_transfer_length: residual_length,
                    completion_code,
                    endpoint_id,
                    slot_id,
                },
            ),
            Event::NotSupport { .. } => Ok(None),
        }
    }

    /// Takes all events off the event ring that the controller has written
    /// and handles them in their order.
    ///
    /// `memory` is the content of the segments of the event ring as it is
    /// now. Events are taken while the block at the dequeue pointer carries
    /// the cycle bit of the pass; nothing else ends the run. After each
    /// event the controller is told up to where the ring was emptied, and
    /// the event is handled; see [`XhcController::process_event`]. An event
    /// that fails does not keep the events after it from being handled.
    /// Returns what handling each event gave, in the order of the events.
    pub fn process_all_events<M: VolatileMemory, A: MemoryAllocatable>(
        &mut self,
        mem: &mut M,
        allocator: &mut A,
        memory: &Vec<Vec<Trb>>,
    ) -> (outcomes: Vec<PciResult<Option<InputReport>>>)
        requires
            old(self).wf(),
        ensures
            final(self).wf(),
            final(self).same_setup(old(self)),
            extends(old(mem).history(), final(mem).history()),
            final(self).event_ring() == old(self).event_ring().advance_by(outcomes@.len()),
            !final(self).event_ring().ready(memory@),
            forall|j: int|
                0 <= j < outcomes@.len() ==> #[trigger] old(self).event_ring().advance_by(
                    j as nat,
                ).ready(memory@),
            progressed(old(self).attached(), final(self).attached()),
            events_handled(
                old(self).setup(),
                taken(old(self).event_ring(), memory@, outcomes@.len()),
                outcomes@,
                old(self).state(),
                final(self).state(),
                old(mem).history(),
                final(mem).history(),
                final(allocator).granted(),
                old(allocator).granted().len() as int,
            ),
    {
        let events: Vec<Dequeued> = self.event_ring.drain(memory);
        let ghost start = old(self).event_ring();
        let ghost setup = old(self).setup();
        let ghost s0 = old(self).state();
        let ghost t0 = mem.history();
        let ghost at = allocator.granted().len() as int;
        proof {
            assert forall|j: int| 0 <= j < events@.len() implies #[trigger] start.advance_by(
                j as nat,
            ).ready(memory@) by {
                let dequeued = events@[j];
            }
            assert(events@ =~= taken(start, memory@, events@.len()));
        }
        let erdp = self.registers.interrupter().erdp;
        let mut outcomes: Vec<PciResult<Option<InputReport>>> = Vec::new();
        let mut i: usize = 0;
        while i < events.len()
            invariant
                i <= events@.len(),
                outcomes@.len() == i,
                self.wf(),
                self.same_setup(old(self)),
                setup == old(self).setup(),
                s0 == old(self).state(),
                t0 == old(mem).history(),
                at == old(allocator).granted().len(),
                erdp.field() == setup.erdp,
                self.event_ring() == old(self).event_ring().advance_by(events@.len()),
                extends(t0, mem.history()),
                at <= allocator.granted().len(),
                progressed(old(self).attached(), self.attached()),
                !self.event_ring().ready(memory@),
                forall|j: int|
                    0 <= j < events@.len() ==> #[trigger] old(self).event_ring().advance_by(
                        j as nat,
                    ).ready(memory@),
                events_handled(
                    setup,
                    events@.take(i as int),
                    outcomes@,
                    s0,
                    self.state(),
                    t0,
                    mem.history(),
                    allocator.granted(),
                    at,
                ),
            decreases events@.len() - i,
        {
            let dequeued = events[i];
            let ghost sm = self.state();
            let ghost tm = mem.history();
            let ghost gm = allocator.granted();
            let ghost done_before = outcomes@;
            erdp.update_dequeue_pointer(mem, dequeued.next_pointer);
            let ghost tq = mem.history();
            let ghost before = self.attached();
            let outcome = self.process_event(mem, allocator, dequeued.event);
            outcomes.push(outcome);
            proof {
                lemma_progressed_transitive(old(self).attached(), before, self.attached());
                lemma_extends_transitive(t0, tm, tq);
                lemma_extends_transitive(t0, tq, mem.history());
                let handled = events@.take(i + 1);
                assert(handled.drop_last() =~= events@.take(i as int));
                assert(handled.last() == dequeued);
                assert(outcomes@.drop_last() =~= done_before);
                assert(allocator.granted().subrange(0, gm.len() as int) =~= gm);
                assert(last_handled(
                    sm,
                    tm,
                    tq,
                    gm.len() as int,
                    setup,
                    handled,
                    outcomes@,
                    self.state(),
                    mem.history(),
                    allocator.granted(),
                ));
                assert(events_handled(
                    setup,
                    handled.drop_last(),
                    outcomes@.drop_last(),
                    s0,
                    sm,
                    t0,
                    tm,
                    allocator.granted().subrange(0, gm.len() as int),
                    at,
                ));
            }
            i = i + 1;
        }
        proof {
            assert(events@.take(events@.len() as int) =~= events@);
        }
        outcomes
    }
}

} // verus!
