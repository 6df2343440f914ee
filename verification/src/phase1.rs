use vstd::prelude::*;

use crate::control_pipe::in_data_transfer;
use crate::control_pipe::transfer_accesses;
use crate::control_pipe::Request;
use crate::descriptor::DESCRIPTOR_TYPE_CONFIGURATION;
use crate::device_slot::DeviceSlot;
use crate::device_slot::DATA_BUFF_SIZE;
use crate::error::DeviceReason;
use crate::error::PciError;
use crate::error::PciResult;
use crate::hid::KeyboardDriver;
use crate::hid::MouseDriver;
use crate::phase::DevicePhase;
use crate::phase::InitStatus;
use crate::phase::Phase;
use crate::phase::Transition;
use crate::phase2::Phase2;
use crate::ring::ring_full;
use crate::transfer::unexpected_transfer;
use crate::transfer::TargetEvent;
use crate::transfer::TransferEvent;
use crate::volatile::extends;
use crate::volatile::Access;
use crate::volatile::VolatileMemory;

verus! {

/// The phase of a device that has a slot and is being given an address.
pub struct Phase1 {
    pub mouse: MouseDriver,
    pub keyboard: KeyboardDriver,
}

impl Phase1 {
    pub fn new(mouse: MouseDriver, keyboard: KeyboardDriver) -> (phase: Phase1)
        ensures
            phase.mouse == mouse,
            phase.keyboard == keyboard,
    {
        Self { mouse, keyboard }
    }

    /// The request that reads the configuration descriptor, with all that
    /// follows it, into the buffer of the slot.
    pub open spec fn read_configuration() -> Request {
        Request::get_descriptor(2, 0, 256)
    }

    /// Handles the completion of the command that gave the device its
    /// address: the configuration descriptor is asked for on the default
    /// control pipe and the device enters the configuration phase.
    ///
    /// Where the ring of the pipe has no room for the transfer, the call
    /// fails with `Full`, nothing is enqueued and the device stays in its
    /// phase.
    pub fn on_address_device_completed<M: VolatileMemory>(
        &self,
        slot: &mut DeviceSlot,
        mem: &mut M,
    ) -> (r: PciResult<Transition>)
        requires
            old(slot).wf(),
        ensures
            final(slot).wf(),
            extends(old(mem).history(), final(mem).history()),
            configuration_asked(
                *self,
                *old(slot),
                *final(slot),
                old(mem).history(),
                final(mem).history(),
                r,
            ),
    {
        let request = Request::get_descriptor(DESCRIPTOR_TYPE_CONFIGURATION, 0, DATA_BUFF_SIZE as u16);
        match slot.default_control_pipe.control_in_with_data(
            mem,
            request,
            slot.data_buff_addr,
            DATA_BUFF_SIZE as u16,
        ) {
            Ok(_) => Ok(
                Transition {
                    status: InitStatus::not(),
                    next: Some(DevicePhase::Configuration(Phase2::new(self.mouse, self.keyboard))),
                    report: None,
                },
            ),
            Err(e) => Err(e),
        }
    }
}

/// What [`Phase1::on_address_device_completed`] makes of the slot `slot0`:
/// the slot `slot1` and the result `r`, with the accesses `t0` made before
/// the call and `t1` after it.
///
/// Where the ring of the default control pipe has room for three blocks,
/// the transfer that reads the configuration descriptor is started and the
/// device enters the configuration phase with the drivers of this phase.
/// Else the call fails with `Full` and nothing changes.
pub open spec fn configuration_asked(
    before: Phase1,
    slot0: DeviceSlot,
    slot1: DeviceSlot,
    t0: Seq<Access>,
    t1: Seq<Access>,
    r: PciResult<Transition>,
) -> bool {
    let ring = slot0.default_control_pipe.ring();
    let blocks = in_data_transfer(Phase1::read_configuration(), slot0.data_buff_addr, 256);
    &&& slot1.slot_id == slot0.slot_id
    &&& slot1.input_context == slot0.input_context
    &&& slot1.doorbell == slot0.doorbell
    &&& slot1.data_buff_addr == slot0.data_buff_addr
    &&& slot1.data_buff == slot0.data_buff
    &&& slot1.mouse_pipe == slot0.mouse_pipe
    &&& slot1.keyboard_pipe == slot0.keyboard_pipe
    &&& if ring.free() < 3 {
        &&& r is Err
        &&& r->Err_0 == ring_full()
        &&& slot1.default_control_pipe.ring() == ring
        &&& t1 == t0
    } else {
        &&& r matches Ok(transition)
        &&& transition.status == InitStatus::new(false)
        &&& transition.report is None
        &&& transition.next matches Some(DevicePhase::Configuration(phase))
        &&& phase.mouse() == before.mouse
        &&& phase.keyboard() == before.keyboard
        &&& slot1.default_control_pipe.ring() == ring.enqueue_all(blocks)
        &&& t1 == t0 + transfer_accesses(ring, blocks, slot0.doorbell.addr(), 1)
    }
}

impl Phase for Phase1 {
    open spec fn phase_rank(&self) -> int {
        0
    }

    /// No transfer is under way while a device is given its address: every
    /// transfer event is refused with `UnexpectedTransfer` and changes
    /// nothing.
    fn on_transfer_event_received<M: VolatileMemory>(
        &mut self,
        slot: &mut DeviceSlot,
        mem: &mut M,
        transfer_event: TransferEvent,
        target_event: TargetEvent,
    ) -> (r: PciResult<Transition>)
        ensures
            r is Err,
            r->Err_0 == unexpected_transfer(),
            *final(slot) == *old(slot),
            *final(self) == *old(self),
            final(mem).history() == old(mem).history(),
    {
        Err(PciError::FailedOperateDevice(DeviceReason::UnexpectedTransfer))
    }

    fn interface_nums(&self) -> (nums: Option<Vec<u8>>)
        ensures
            nums is None,
    {
        None
    }
}

} // verus!
