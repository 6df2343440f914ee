use vstd::prelude::*;
use vstd::slice::slice_subrange;

use crate::device_slot::DeviceSlot;
use crate::device_slot::InterruptPipe;
use crate::device_slot::REPORT_BUFF_SIZE;
use crate::error::DeviceReason;
use crate::error::PciError;
use crate::error::PciResult;
use crate::error::RingReason;
use crate::hid::keyboard_report_of;
use crate::hid::mouse_report_of;
use crate::hid::HidDeviceDescriptors;
use crate::hid::InputReport;
use crate::hid::KeyboardDriver;
use crate::hid::MouseDriver;
use crate::phase::InitStatus;
use crate::phase::Phase;
use crate::phase::Transition;
use crate::control_pipe::transfer_accesses;
use crate::registers::doorbell::Doorbell;
use crate::ring::lemma_enqueue_one;
use crate::ring::lemma_enqueue_wf;
use crate::ring::ring_full;
use crate::transfer::invalid_transfer_length;
use crate::transfer::transferred;
use crate::transfer::unexpected_transfer;
use crate::transfer::DataStage;
use crate::transfer::TargetEvent;
use crate::transfer::TransferEvent;
use crate::trb::Trb;
use crate::volatile::Access;
use crate::volatile::VolatileMemory;

verus! {

/// Which input device an endpoint belongs to.
#[derive(Debug, Clone, Copy, PartialEq, Eq, Structural)]
pub enum Route {
    Mouse,
    Keyboard,
}

/// The phase of a device that is configured and whose reports are taken.
pub struct Phase3 {
    pub mouse: MouseDriver,
    pub keyboard: KeyboardDriver,
    /// The mouse and keyboard interfaces of the device, each with the
    /// endpoint it reports on.
    pub hid_device_descriptors: Vec<HidDeviceDescriptors>,
}

/// The numbers of the interfaces of `pairs`, in their order.
pub open spec fn interface_numbers(pairs: Seq<HidDeviceDescriptors>) -> Seq<u8> {
    Seq::new(pairs.len(), |i: int| pairs[i].interface().interface_number)
}

/// The block that asks for the next report on a pipe whose buffer lies at
/// `buffer_addr`.
pub open spec fn next_report(buffer_addr: u64) -> Trb {
    Trb::normal(buffer_addr, 8)
}

/// The pipe the endpoint `endpoint_id` of the device in `slot` belongs to:
/// that of the mouse where it is the mouse's endpoint, else that of the
/// keyboard where it is the keyboard's.
pub open spec fn route_of(slot: DeviceSlot, endpoint_id: u8) -> Option<Route> {
    if slot.mouse_pipe matches Some(pipe) && pipe.dci == endpoint_id {
        Some(Route::Mouse)
    } else if slot.keyboard_pipe matches Some(pipe) && pipe.dci == endpoint_id {
        Some(Route::Keyboard)
    } else {
        None
    }
}

/// The number of bytes of a report that a transfer moved into a pipe's
/// buffer, or the error for an event that cannot be used: a pipe without
/// room for the next request (`Full`), or a length that is not that of a
/// transfer into the buffer.
pub open spec fn report_length(pipe: InterruptPipe, stage: DataStage, event: TransferEvent)
    -> PciResult<int> {
    if pipe.ring@.full() {
        Err(ring_full())
    } else {
        match transferred(stage, event) {
            None => Err(invalid_transfer_length()),
            Some(len) => if len > REPORT_BUFF_SIZE {
                Err(invalid_transfer_length())
            } else {
                Ok(len)
            },
        }
    }
}

impl Phase3 {
    pub fn new(
        mouse: MouseDriver,
        keyboard: KeyboardDriver,
        hid_device_descriptors: Vec<HidDeviceDescriptors>,
    ) -> (phase: Phase3)
        ensures
            phase.mouse == mouse,
            phase.keyboard == keyboard,
            phase.hid_device_descriptors == hid_device_descriptors,
    {
        Self { mouse, keyboard, hid_device_descriptors }
    }

    /// Asks for the next report on `pipe` and rings `doorbell` for its
    /// endpoint. Returns the number of bytes of the report that the
    /// completed transfer moved into the buffer; see [`report_length`] for
    /// what is refused, in which case nothing changes.
    fn rearm<M: VolatileMemory>(
        pipe: &mut InterruptPipe,
        doorbell: Doorbell,
        mem: &mut M,
        stage: DataStage,
        event: TransferEvent,
    ) -> (r: PciResult<usize>)
        requires
            old(pipe).wf(),
        ensures
            final(pipe).wf(),
            final(pipe).dci == old(pipe).dci,
            final(pipe).buffer_addr == old(pipe).buffer_addr,
            final(pipe).buffer == old(pipe).buffer,
            match report_length(*old(pipe), stage, event) {
                Err(e) => {
                    &&& r is Err
                    &&& r->Err_0 == e
                    &&& *final(pipe) == *old(pipe)
                    &&& final(mem).history() == old(mem).history()
                },
                Ok(len) => r is Ok && r->Ok_0 == len && final(pipe).ring@ == old(pipe).ring@.enqueue(
                    next_report(old(pipe).buffer_addr),
                ) && final(mem).history() == old(mem).history() + transfer_accesses(
                    old(pipe).ring@,
                    seq![next_report(old(pipe).buffer_addr)],
                    doorbell.addr(),
                    old(pipe).dci,
                ),
            },
    {
        if pipe.ring.free_slots() < 1 {
            return Err(PciError::FailedOperateRing(RingReason::Full));
        }
        if event.trb_transfer_length > stage.trb_transfer_length {
            return Err(PciError::FailedOperateDevice(DeviceReason::InvalidTransferLength));
        }
        let len: u32 = stage.trb_transfer_length - event.trb_transfer_length;
        if len as usize > REPORT_BUFF_SIZE {
            return Err(PciError::FailedOperateDevice(DeviceReason::InvalidTransferLength));
        }
        proof {
            lemma_enqueue_wf(pipe.ring@, next_report(pipe.buffer_addr));
        }
        let ghost start = pipe.ring@;
        let ghost block = next_report(pipe.buffer_addr);
        let _ = pipe.ring.enqueue(mem, Trb::normal(pipe.buffer_addr, REPORT_BUFF_SIZE as u32));
        doorbell.notify(mem, pipe.dci, 0);
        proof {
            lemma_enqueue_one(start, block);
        }
        Ok(len as usize)
    }
}

/// What [`Phase3::on_transfer_event_received`] makes of the phase `before`
/// and the slot `slot0` on the event given: the phase `after`, the slot
/// `slot1` and the result `r`, with the accesses `t0` made before the call
/// and `t1` after it.
pub open spec fn report_handled(
    before: Phase3,
    after: Phase3,
    slot0: DeviceSlot,
    slot1: DeviceSlot,
    t0: Seq<Access>,
    t1: Seq<Access>,
    transfer_event: TransferEvent,
    target_event: TargetEvent,
    r: PciResult<Transition>,
) -> bool {
    &&& after.hid_device_descriptors == before.hid_device_descriptors
    &&& slot1.slot_id == slot0.slot_id
    &&& slot1.doorbell == slot0.doorbell
    &&& slot1.input_context == slot0.input_context
    &&& slot1.default_control_pipe == slot0.default_control_pipe
    &&& slot1.data_buff_addr == slot0.data_buff_addr
    &&& slot1.data_buff == slot0.data_buff
    &&& r matches Ok(transition) ==> transition.next is None && transition.status
        == InitStatus::new(true)
    &&& target_event is StatusStage ==> r is Ok && r->Ok_0.report is None && slot1
        == slot0 && after == before && t1 == t0
    &&& !(target_event is StatusStage) && !(target_event is Normal) ==> r is Err && r->Err_0
        == unexpected_transfer() && slot1 == slot0 && after == before
        && t1 == t0
    &&& target_event matches TargetEvent::Normal(stage) ==> match route_of(
        slot0,
        transfer_event.endpoint_id
    ) {
        None => r is Err && r->Err_0 == unexpected_transfer() && slot1 == slot0
            && after == before && t1 == t0,
        Some(Route::Mouse) => {
            let pipe = slot0.mouse_pipe->Some_0;
            &&& slot1.keyboard_pipe == slot0.keyboard_pipe
            &&& after.keyboard == before.keyboard
            &&& match report_length(pipe, stage, transfer_event) {
                Err(e) => r is Err && r->Err_0 == e && slot1 == slot0 && after == before && t1 == t0,
                Ok(len) => {
                    let report = mouse_report_of(
                        pipe.buffer@.subrange(0, len),
                        before.mouse.buttons,
                    );
                    &&& r is Ok
                    &&& r->Ok_0.report == match report {
                        Some(mouse) => Some(InputReport::Mouse(mouse)),
                        None => None,
                    }
                    &&& after.mouse.buttons == match report {
                        Some(mouse) => mouse.buttons,
                        None => before.mouse.buttons,
                    }
                    &&& slot1.mouse_pipe matches Some(rearmed)
                    &&& rearmed.ring@ == pipe.ring@.enqueue(next_report(pipe.buffer_addr))
                    &&& rearmed.dci == pipe.dci
                    &&& rearmed.buffer == pipe.buffer
                    &&& rearmed.buffer_addr == pipe.buffer_addr
                    &&& t1 == t0 + transfer_accesses(
                        pipe.ring@,
                        seq![next_report(pipe.buffer_addr)],
                        slot0.doorbell.addr(),
                        pipe.dci,
                    )
                },
            }
        },
        Some(Route::Keyboard) => {
            let pipe = slot0.keyboard_pipe->Some_0;
            &&& slot1.mouse_pipe == slot0.mouse_pipe
            &&& after.mouse == before.mouse
            &&& match report_length(pipe, stage, transfer_event) {
                Err(e) => r is Err && r->Err_0 == e && slot1 == slot0 && after == before && t1 == t0,
                Ok(len) => {
                    let report = keyboard_report_of(
                        pipe.buffer@.subrange(0, len),
                        before.keyboard.modifiers,
                    );
                    &&& r is Ok
                    &&& r->Ok_0.report == match report {
                        Some(keyboard) => Some(InputReport::Keyboard(keyboard)),
                        None => None,
                    }
                    &&& after.keyboard.modifiers == match report {
                        Some(keyboard) => keyboard.modifiers,
                        None => before.keyboard.modifiers,
                    }
                    &&& slot1.keyboard_pipe matches Some(rearmed)
                    &&& rearmed.ring@ == pipe.ring@.enqueue(next_report(pipe.buffer_addr))
                    &&& rearmed.dci == pipe.dci
                    &&& rearmed.buffer == pipe.buffer
                    &&& rearmed.buffer_addr == pipe.buffer_addr
                    &&& t1 == t0 + transfer_accesses(
                        pipe.ring@,
                        seq![next_report(pipe.buffer_addr)],
                        slot0.doorbell.addr(),
                        pipe.dci,
                    )
                },
            }
        }
    }
}

impl Phase for Phase3 {
    open spec fn phase_rank(&self) -> int {
        2
    }

    /// Handles the completion of a transfer of a configured device.
    ///
    /// The completion of a status stage is that of the request that
    /// selected the configuration: it changes nothing and reports the device
    /// as ready. The completion of a normal transfer carries a report: it is
    /// decoded by the driver of the input device the endpoint belongs to,
    /// the next report is asked for on the same pipe and the doorbell is
    /// rung for the endpoint. Bytes that are no report give no report; the
    /// next report is asked for all the same. Any other block, or an
    /// endpoint that belongs to no input device of the slot, is refused with
    /// `UnexpectedTransfer`; a refused event changes nothing. The device
    /// stays in this phase.
    fn on_transfer_event_received<M: VolatileMemory>(
        &mut self,
        slot: &mut DeviceSlot,
        mem: &mut M,
        transfer_event: TransferEvent,
        target_event: TargetEvent,
    ) -> (r: PciResult<Transition>)
        ensures
            report_handled(
                *old(self),
                *final(self),
                *old(slot),
                *final(slot),
                old(mem).history(),
                final(mem).history(),
                transfer_event,
                target_event,
                r,
            ),
    {
        let stage = match target_event {
            TargetEvent::StatusStage => {
                return Ok(Transition { status: InitStatus::initialized(), next: None, report: None });
            },
            TargetEvent::Normal(stage) => stage,
            _ => {
                return Err(PciError::FailedOperateDevice(DeviceReason::UnexpectedTransfer));
            },
        };
        let doorbell = slot.doorbell;
        let to_mouse = match &slot.mouse_pipe {
            Some(pipe) => pipe.dci == transfer_event.endpoint_id,
            None => false,
        };
        let to_keyboard = !to_mouse && match &slot.keyboard_pipe {
            Some(pipe) => pipe.dci == transfer_event.endpoint_id,
            None => false,
        };
        if to_mouse {
            let mut pipe = slot.mouse_pipe.take().unwrap();
            let rearmed = Self::rearm(&mut pipe, doorbell, mem, stage, transfer_event);
            let report = match rearmed {
                Ok(len) => {
                    let data = slice_subrange(pipe.buffer.as_slice(), 0, len);
                    match self.mouse.on_data_received(data) {
                        Some(mouse) => Some(InputReport::Mouse(mouse)),
                        None => None,
                    }
                },
                Err(e) => {
                    slot.mouse_pipe = Some(pipe);
                    return Err(e);
                },
            };
            slot.mouse_pipe = Some(pipe);
            Ok(Transition { status: InitStatus::initialized(), next: None, report })
        } else if to_keyboard {
            let mut pipe = slot.keyboard_pipe.take().unwrap();
            let rearmed = Self::rearm(&mut pipe, doorbell, mem, stage, transfer_event);
            let report = match rearmed {
                Ok(len) => {
                    let data = slice_subrange(pipe.buffer.as_slice(), 0, len);
                    match self.keyboard.on_data_received(data) {
                        Some(keyboard) => Some(InputReport::Keyboard(keyboard)),
                        None => None,
                    }
                },
                Err(e) => {
                    slot.keyboard_pipe = Some(pipe);
                    return Err(e);
                },
            };
            slot.keyboard_pipe = Some(pipe);
            Ok(Transition { status: InitStatus::initialized(), next: None, report })
        } else {
            Err(PciError::FailedOperateDevice(DeviceReason::UnexpectedTransfer))
        }
    }

    /// The numbers of the mouse and keyboard interfaces of the device.
    fn interface_nums(&self) -> (nums: Option<Vec<u8>>)
        ensures
            nums matches Some(numbers) && numbers@ == interface_numbers(
                self.hid_device_descriptors@,
            ),
    {
        let mut numbers: Vec<u8> = Vec::new();
        let mut i: usize = 0;
        while i < self.hid_device_descriptors.len()
            invariant
                i <= self.hid_device_descriptors@.len(),
                numbers@ == interface_numbers(self.hid_device_descriptors@.subrange(0, i as int)),
            decreases self.hid_device_descriptors@.len() - i,
        {
            numbers.push(self.hid_device_descriptors[i].interface().interface_number);
            i = i + 1;
            assert(numbers@ =~= interface_numbers(
                self.hid_device_descriptors@.subrange(0, i as int),
            ));
        }
        assert(self.hid_device_descriptors@.subrange(0, i as int) =~= self.hid_device_descriptors@);
        Some(numbers)
    }
}

} // verus!
