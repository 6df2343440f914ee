use vstd::prelude::*;

use crate::allocator::Allocation;
use crate::allocator::MemoryAllocatable;
use crate::error::AllocateReason;
use crate::hid::HidDeviceDescriptors;
use crate::registers::asked;
use crate::registers::extends_requests;
use crate::registers::not_enough_memory;
use crate::ring::ring_made;
use crate::ring::Ring;
use crate::hid::InputReport;
use crate::phase::phase_handled;
use crate::phase::DevicePhase;
use crate::phase::Phase;
use crate::phase::Transition;
use crate::trb::COMPLETION_SHORT_PACKET;
use crate::trb::COMPLETION_SUCCESS;
use crate::volatile::lemma_extends_transitive;
use crate::control_pipe::transfer_accesses;
use crate::phase3::next_report;
use crate::registers::doorbell::Doorbell;
use crate::ring::lemma_enqueue_one;
use crate::ring::lemma_enqueue_wf;
use crate::ring::ring_full;
use crate::device_slot::DeviceSlot;
use crate::device_slot::InterruptPipe;
use crate::device_slot::DATA_BUFF_SIZE;
use crate::device_slot::REPORT_BUFF_SIZE;
use crate::dma::bytes_read;
use crate::dma::read_bytes;
use crate::dma::read_run;
use crate::error::DeviceReason;
use crate::error::PciError;
use crate::error::PciResult;
use crate::error::RingReason;
use crate::phase3::route_of;
use crate::phase3::Route;
use crate::ring::nothing_pending;
use crate::ring::RingModel;
use crate::transfer::invalid_transfer_length;
use crate::transfer::unexpected_transfer;
use crate::transfer::TargetEvent;
use crate::transfer::TransferEvent;
use crate::trb::Trb;
use crate::volatile::extends;
use crate::volatile::Access;
use crate::volatile::VolatileMemory;

verus! {

/// The endpoint of the default control pipe.
pub const ENDPOINT_CONTROL: u8 = 1;

/// The block of `ring` that an event with the pointer `pointer` is about,
/// with the number of blocks that the controller has taken up to it; `None`
/// where the pointer is not that of an outstanding block.
pub open spec fn completed_block(ring: RingModel, pointer: u64) -> Option<(Trb, int)> {
    match (ring.at_pointer(pointer), ring.position_of(pointer)) {
        (Some(trb), Some(k)) => Some((trb, k + 1)),
        _ => None,
    }
}

/// The bytes from `addr` on can be read word by word without leaving the
/// address space.
pub open spec fn readable(addr: u64, count: int) -> bool {
    addr + count + 3 <= usize::MAX
}

/// What [`fetch_report`] makes of the pipe `pipe0` on `event`: the pipe
/// `pipe1` and the result `r`, with the accesses `t0` made before and `t1`
/// after.
///
/// An event whose pointer is not that of an outstanding block of the ring
/// is refused with `NothingPending` and changes nothing. Otherwise the
/// blocks up to the one the event points at are taken off the ring, the
/// eight bytes of the report buffer are read from memory and taken over,
/// and the kind of the block is handed out; a buffer at the very end of the
/// address space cannot be read and gives `InvalidTransferLength`.
pub open spec fn report_fetched(
    pipe0: InterruptPipe,
    pipe1: InterruptPipe,
    t0: Seq<Access>,
    t1: Seq<Access>,
    event: TransferEvent,
    r: PciResult<TargetEvent>,
) -> bool {
    &&& pipe1.dci == pipe0.dci
    &&& pipe1.buffer_addr == pipe0.buffer_addr
    &&& match completed_block(pipe0.ring@, event.trb_pointer) {
        None => {
            &&& r is Err
            &&& r->Err_0 == nothing_pending()
            &&& pipe1.ring@ == pipe0.ring@
            &&& pipe1.buffer == pipe0.buffer
            &&& t1 == t0
        },
        Some((trb, taken)) => {
            &&& pipe1.ring@ == pipe0.ring@.release(taken)
            &&& if readable(pipe0.buffer_addr, 8) {
                &&& r is Ok
                &&& r->Ok_0 == TargetEvent::from_trb(trb)
                &&& extends(t0, t1)
                &&& t1.len() == t0.len() + 2
                &&& read_run(t1, t0.len() as int, pipe0.buffer_addr as int, 8)
                &&& pipe1.buffer@ == bytes_read(t1, t0.len() as int, 8)
            } else {
                &&& r is Err
                &&& r->Err_0 == invalid_transfer_length()
                &&& pipe1.buffer == pipe0.buffer
                &&& t1 == t0
            }
        },
    }
}

/// Finds the block that `event` points at on the ring of `pipe`, notes
/// that the controller has taken it, and takes over the report that the
/// controller wrote into the buffer of the pipe; see [`report_fetched`].
pub fn fetch_report<M: VolatileMemory>(pipe: &mut InterruptPipe, mem: &mut M, event: TransferEvent)
    -> (r: PciResult<TargetEvent>)
    requires
        old(pipe).wf(),
    ensures
        final(pipe).wf(),
        report_fetched(*old(pipe), *final(pipe), old(mem).history(), final(mem).history(), event, r),
{
    let trb = match pipe.ring.trb_at(event.trb_pointer) {
        Some(trb) => trb,
        None => {
            return Err(PciError::FailedOperateRing(RingReason::NothingPending));
        },
    };
    match pipe.ring.acknowledge(event.trb_pointer) {
        Ok(_) => {},
        Err(e) => {
            return Err(e);
        },
    }
    if pipe.buffer_addr > (usize::MAX - REPORT_BUFF_SIZE - 3) as u64 {
        return Err(PciError::FailedOperateDevice(DeviceReason::InvalidTransferLength));
    }
    pipe.buffer = read_bytes(mem, pipe.buffer_addr as usize, REPORT_BUFF_SIZE);
    Ok(TargetEvent::from_trb(trb))
}

/// What [`target_of`] makes of the slot `slot0` on `event`: the slot
/// `slot1` and the result `r`, with the accesses `t0` made before and `t1`
/// after.
///
/// An event on the control endpoint is about a block of the default
/// control pipe: a pointer that is not that of an outstanding block is
/// refused with `NothingPending` and changes nothing; otherwise the blocks
/// up to the one the event points at are taken off the ring, and for a
/// data stage the whole data buffer is read from memory and taken over. An
/// event on another endpoint is about the pipe of the input device the
/// endpoint belongs to, see [`report_fetched`]; an endpoint that belongs to
/// none is refused with `UnexpectedTransfer`.
pub open spec fn targeted(
    slot0: DeviceSlot,
    slot1: DeviceSlot,
    t0: Seq<Access>,
    t1: Seq<Access>,
    event: TransferEvent,
    r: PciResult<TargetEvent>,
) -> bool {
    &&& slot1.slot_id == slot0.slot_id
    &&& slot1.input_context == slot0.input_context
    &&& slot1.doorbell == slot0.doorbell
    &&& slot1.data_buff_addr == slot0.data_buff_addr
    &&& slot1.default_control_pipe.doorbell() == slot0.default_control_pipe.doorbell()
    &&& if event.endpoint_id == 1 {
        &&& slot1.mouse_pipe == slot0.mouse_pipe
        &&& slot1.keyboard_pipe == slot0.keyboard_pipe
        &&& match completed_block(slot0.default_control_pipe.ring(), event.trb_pointer) {
            None => {
                &&& r is Err
                &&& r->Err_0 == nothing_pending()
                &&& slot1.default_control_pipe.ring() == slot0.default_control_pipe.ring()
                &&& slot1.data_buff == slot0.data_buff
                &&& t1 == t0
            },
            Some((trb, taken)) => {
                &&& slot1.default_control_pipe.ring() == slot0.default_control_pipe.ring().release(
                    taken,
                )
                &&& if !(TargetEvent::from_trb(trb) is DataStage) {
                    &&& r is Ok
                    &&& r->Ok_0 == TargetEvent::from_trb(trb)
                    &&& slot1.data_buff == slot0.data_buff
                    &&& t1 == t0
                } else if readable(slot0.data_buff_addr, 256) {
                    &&& r is Ok
                    &&& r->Ok_0 == TargetEvent::from_trb(trb)
                    &&& extends(t0, t1)
                    &&& t1.len() == t0.len() + 64
                    &&& read_run(t1, t0.len() as int, slot0.data_buff_addr as int, 256)
                    &&& slot1.data_buff@ == bytes_read(t1, t0.len() as int, 256)
                } else {
                    &&& r is Err
                    &&& r->Err_0 == invalid_transfer_length()
                    &&& slot1.data_buff == slot0.data_buff
                    &&& t1 == t0
                }
            },
        }
    } else {
        &&& slot1.default_control_pipe.ring() == slot0.default_control_pipe.ring()
        &&& slot1.data_buff == slot0.data_buff
        &&& match route_of(slot0, event.endpoint_id) {
            None => {
                &&& r is Err
                &&& r->Err_0 == unexpected_transfer()
                &&& slot1.mouse_pipe == slot0.mouse_pipe
                &&& slot1.keyboard_pipe == slot0.keyboard_pipe
                &&& t1 == t0
            },
            Some(Route::Mouse) => {
                &&& slot1.keyboard_pipe == slot0.keyboard_pipe
                &&& slot1.mouse_pipe is Some
                &&& report_fetched(
                    slot0.mouse_pipe->Some_0,
                    slot1.mouse_pipe->Some_0,
                    t0,
                    t1,
                    event,
                    r,
                )
            },
            Some(Route::Keyboard) => {
                &&& slot1.mouse_pipe == slot0.mouse_pipe
                &&& slot1.keyboard_pipe is Some
                &&& report_fetched(
                    slot0.keyboard_pipe->Some_0,
                    slot1.keyboard_pipe->Some_0,
                    t0,
                    t1,
                    event,
                    r,
                )
            },
        }
    }
}

/// Finds the block that `event` points at among the rings of `slot`, notes
/// that the controller has taken it, and takes over what the controller
/// wrote into the buffer of the transfer; see [`targeted`].
pub fn target_of<M: VolatileMemory>(slot: &mut DeviceSlot, mem: &mut M, event: TransferEvent) -> (r:
    PciResult<TargetEvent>)
    requires
        old(slot).wf(),
    ensures
        final(slot).wf(),
        targeted(*old(slot), *final(slot), old(mem).history(), final(mem).history(), event, r),
{
    if event.endpoint_id == ENDPOINT_CONTROL {
        let trb = match slot.default_control_pipe.trb_at(event.trb_pointer) {
            Some(trb) => trb,
            None => {
                return Err(PciError::FailedOperateRing(RingReason::NothingPending));
            },
        };
        match slot.default_control_pipe.acknowledge(event.trb_pointer) {
            Ok(_) => {},
            Err(e) => {
                return Err(e);
            },
        }
        let target = TargetEvent::from_trb(trb);
        if let TargetEvent::DataStage(_) = target {
            if slot.data_buff_addr > (usize::MAX - DATA_BUFF_SIZE - 3) as u64 {
                return Err(PciError::FailedOperateDevice(DeviceReason::InvalidTransferLength));
            }
            let data = read_bytes(mem, slot.data_buff_addr as usize, DATA_BUFF_SIZE);
            slot.load_data(data.as_slice());
            proof {
                assert(slot.data_buff@ =~= data@);
            }
        }
        Ok(target)
    } else {
        let to_mouse = match &slot.mouse_pipe {
            Some(pipe) => pipe.dci == event.endpoint_id,
            None => false,
        };
        let to_keyboard = !to_mouse && match &slot.keyboard_pipe {
            Some(pipe) => pipe.dci == event.endpoint_id,
            None => false,
        };
        if to_mouse {
            let mut pipe = slot.mouse_pipe.take().unwrap();
            let r = fetch_report(&mut pipe, mem, event);
            slot.mouse_pipe = Some(pipe);
            r
        } else if to_keyboard {
            let mut pipe = slot.keyboard_pipe.take().unwrap();
            let r = fetch_report(&mut pipe, mem, event);
            slot.keyboard_pipe = Some(pipe);
            r
        } else {
            Err(PciError::FailedOperateDevice(DeviceReason::UnexpectedTransfer))
        }
    }
}


/// The number of slots of each transfer ring, the link slot included.
pub const PIPE_RING_SLOTS: usize = 32;

/// A pipe for the reports of an input device, as it is made.
pub struct PipeModel {
    pub dci: u8,
    pub ring: RingModel,
    pub buffer_addr: u64,
}

/// `pipe` is in order and is the pipe `model`, with a buffer of zeros.
pub open spec fn is_pipe(pipe: InterruptPipe, model: PipeModel) -> bool {
    &&& pipe.wf()
    &&& pipe.dci == model.dci
    &&& pipe.ring@ == model.ring
    &&& pipe.buffer_addr == model.buffer_addr
    &&& pipe.buffer@ == Seq::new(8, |i: int| 0u8)
}

/// What [`make_pipe`] does on the requests of `granted` from index `at` on:
/// where the requests end, and the pipe that is made.
///
/// Memory is asked for twice, both times on a 64-byte boundary: 16 bytes
/// for each slot of the ring, then the eight bytes of the report buffer;
/// the second request is not made when the first was turned down. Either
/// request turned down fails with `NotEnoughMemory`, and memory that no
/// ring can be made of with the error of [`ring_made`].
pub open spec fn pipe_run(pair: HidDeviceDescriptors, granted: Seq<Allocation>, at: int)
    -> Option<(int, PciResult<PipeModel>)> {
    if !(0 <= at < granted.len() && asked(
        granted,
        at,
        (16 * PIPE_RING_SLOTS) as usize,
        64,
        0x1_0000,
    )) {
        None
    } else {
        match granted[at].address {
            None => Some((at + 1, Err(not_enough_memory()))),
            Some(base) => if !(at + 1 < granted.len() && asked(granted, at + 1, 8, 64, 4096)) {
                None
            } else {
                match granted[at + 1].address {
                    None => Some((at + 2, Err(not_enough_memory()))),
                    Some(buffer_addr) => match ring_made(base, PIPE_RING_SLOTS) {
                        Err(e) => Some((at + 2, Err(e))),
                        Ok(ring) => Some(
                            (
                                at + 2,
                                Ok(
                                    PipeModel {
                                        dci: pair.endpoint().device_context_index(),
                                        ring,
                                        buffer_addr,
                                    },
                                ),
                            ),
                        ),
                    },
                }
            },
        }
    }
}

/// Makes the pipe for the endpoint of `pair`: a transfer ring and a report
/// buffer from `allocator`; see [`pipe_run`].
pub fn make_pipe<A: MemoryAllocatable>(allocator: &mut A, pair: &HidDeviceDescriptors) -> (r:
    PciResult<InterruptPipe>)
    ensures
        extends_requests(old(allocator).granted(), final(allocator).granted(), 2),
        match pipe_run(*pair, final(allocator).granted(), old(allocator).granted().len() as int) {
            Some((end, Ok(model))) => end == final(allocator).granted().len() && (r matches Ok(pipe)
                && is_pipe(pipe, model)),
            Some((end, Err(e))) => end == final(allocator).granted().len() && r is Err && r->Err_0
                == e,
            None => false,
        },
{
    let ring_addr = match allocator.allocate_with_align(16 * PIPE_RING_SLOTS, 64, 0x1_0000) {
        Some(addr) => addr.raw_address(),
        None => {
            return Err(PciError::FailedAllocate(AllocateReason::NotEnoughMemory));
        },
    };
    let buffer_addr = match allocator.allocate_with_align(REPORT_BUFF_SIZE, 64, 4096) {
        Some(addr) => addr.raw_address(),
        None => {
            return Err(PciError::FailedAllocate(AllocateReason::NotEnoughMemory));
        },
    };
    let ring = match Ring::new(ring_addr, PIPE_RING_SLOTS) {
        Ok(ring) => ring,
        Err(e) => {
            return Err(e);
        },
    };
    let mut buffer: Vec<u8> = Vec::new();
    let mut i: usize = 0;
    while i < REPORT_BUFF_SIZE
        invariant
            i <= REPORT_BUFF_SIZE,
            buffer@ == Seq::new(i as nat, |i: int| 0u8),
        decreases REPORT_BUFF_SIZE - i,
    {
        buffer.push(0);
        i = i + 1;
        assert(buffer@ =~= Seq::new(i as nat, |i: int| 0u8));
    }
    Ok(InterruptPipe { dci: pair.endpoint().device_context_index(), ring, buffer_addr, buffer })
}

/// The first of `pairs`, from the index `from` on, whose interface is that
/// of a mouse, if `mouse` is set, or that of a keyboard, if it is not.
pub open spec fn first_of(pairs: Seq<HidDeviceDescriptors>, mouse: bool, from: int) -> Option<
    HidDeviceDescriptors,
>
    decreases pairs.len() - from,
{
    if from < 0 || from >= pairs.len() {
        None
    } else if (mouse && pairs[from].interface().is_mouse()) || (!mouse
        && pairs[from].interface().is_keyboard()) {
        Some(pairs[from])
    } else {
        first_of(pairs, mouse, from + 1)
    }
}

fn find_first(pairs: &Vec<HidDeviceDescriptors>, mouse: bool) -> (r: Option<HidDeviceDescriptors>)
    ensures
        r == first_of(pairs@, mouse, 0),
{
    let mut i: usize = 0;
    while i < pairs.len()
        invariant
            i <= pairs@.len(),
            first_of(pairs@, mouse, 0) == first_of(pairs@, mouse, i as int),
        decreases pairs@.len() - i,
    {
        let pair = pairs[i];
        if (mouse && pair.interface().is_mouse()) || (!mouse && pair.interface().is_keyboard()) {
            return Some(pair);
        }
        i = i + 1;
    }
    None
}

/// What making the pipe of one input device does on the requests of
/// `granted` from index `at` on: nothing where the slot has the pipe
/// already (`missing` is not set) or the device has no such interface
/// (`pair` is `None`), and what [`pipe_run`] says otherwise. The pipe that
/// is made, if one is, comes with the result.
pub open spec fn optional_pipe_run(
    missing: bool,
    pair: Option<HidDeviceDescriptors>,
    granted: Seq<Allocation>,
    at: int,
) -> Option<(int, PciResult<Option<PipeModel>>)> {
    match pair {
        Some(pair) => if missing {
            match pipe_run(pair, granted, at) {
                None => None,
                Some((end, Ok(model))) => Some((end, Ok(Some(model)))),
                Some((end, Err(e))) => Some((end, Err(e))),
            }
        } else {
            Some((at, Ok(None)))
        },
        None => Some((at, Ok(None))),
    }
}

/// `after` is `before` where no pipe was made, and the pipe `made`
/// otherwise.
pub open spec fn pipe_set(
    before: Option<InterruptPipe>,
    after: Option<InterruptPipe>,
    made: Option<PipeModel>,
) -> bool {
    match made {
        Some(model) => after matches Some(pipe) && is_pipe(pipe, model),
        None => after == before,
    }
}

/// What [`make_pipes`] makes of the slot `slot0` for a device with the
/// interfaces `pairs`: the slot `slot1` and the result `r`, given the
/// allocator's record `granted`, of which the requests from index `at` on
/// are those of this call.
///
/// The pipe of the first mouse interface is made first, then that of the
/// first keyboard interface, each only where the slot does not have it
/// yet; see [`pipe_run`]. The first pipe that cannot be made ends the call
/// with its error, and a pipe made before it stays. Nothing else of the
/// slot changes.
pub open spec fn pipes_made(
    pairs: Seq<HidDeviceDescriptors>,
    slot0: DeviceSlot,
    slot1: DeviceSlot,
    granted: Seq<Allocation>,
    at: int,
    r: PciResult,
) -> bool {
    &&& slot1.slot_id == slot0.slot_id
    &&& slot1.input_context == slot0.input_context
    &&& slot1.doorbell == slot0.doorbell
    &&& slot1.data_buff_addr == slot0.data_buff_addr
    &&& slot1.data_buff == slot0.data_buff
    &&& slot1.default_control_pipe == slot0.default_control_pipe
    &&& match optional_pipe_run(slot0.mouse_pipe is None, first_of(pairs, true, 0), granted, at) {
        None => false,
        Some((end, Err(e))) => {
            &&& end == granted.len()
            &&& r is Err
            &&& r->Err_0 == e
            &&& slot1.mouse_pipe == slot0.mouse_pipe
            &&& slot1.keyboard_pipe == slot0.keyboard_pipe
        },
        Some((a1, Ok(mouse))) => {
            &&& pipe_set(slot0.mouse_pipe, slot1.mouse_pipe, mouse)
            &&& match optional_pipe_run(
                slot0.keyboard_pipe is None,
                first_of(pairs, false, 0),
                granted,
                a1,
            ) {
                None => false,
                Some((end, Err(e))) => {
                    &&& end == granted.len()
                    &&& r is Err
                    &&& r->Err_0 == e
                    &&& slot1.keyboard_pipe == slot0.keyboard_pipe
                },
                Some((end, Ok(keyboard))) => {
                    &&& end == granted.len()
                    &&& r is Ok
                    &&& pipe_set(slot0.keyboard_pipe, slot1.keyboard_pipe, keyboard)
                },
            }
        },
    }
}

/// Makes the pipes of the input device in `slot`, one for its first mouse
/// interface and one for its first keyboard interface among `pairs`; see
/// [`pipes_made`].
pub fn make_pipes<A: MemoryAllocatable>(
    slot: &mut DeviceSlot,
    pairs: &Vec<HidDeviceDescriptors>,
    allocator: &mut A,
) -> (r: PciResult)
    requires
        old(slot).wf(),
    ensures
        final(slot).wf(),
        extends_requests(old(allocator).granted(), final(allocator).granted(), 4),
        pipes_made(
            pairs@,
            *old(slot),
            *final(slot),
            final(allocator).granted(),
            old(allocator).granted().len() as int,
            r,
        ),
{
    let ghost g0 = allocator.granted();
    if slot.mouse_pipe.is_none() {
        if let Some(pair) = find_first(pairs, true) {
            match make_pipe(allocator, &pair) {
                Ok(pipe) => {
                    slot.mouse_pipe = Some(pipe);
                },
                Err(e) => {
                    return Err(e);
                },
            }
        }
    }
    let ghost g1 = allocator.granted();
    if slot.keyboard_pipe.is_none() {
        if let Some(pair) = find_first(pairs, false) {
            let made = make_pipe(allocator, &pair);
            proof {
                let g2 = allocator.granted();
                if slot.mouse_pipe is Some && old(slot).mouse_pipe is None {
                    lemma_pipe_run_stable(
                        first_of(pairs@, true, 0)->Some_0,
                        g1,
                        g2,
                        g0.len() as int,
                    );
                }
            }
            match made {
                Ok(pipe) => {
                    slot.keyboard_pipe = Some(pipe);
                },
                Err(e) => {
                    return Err(e);
                },
            }
        }
    }
    Ok(())
}

/// What making a pipe asked for stays what it was when more requests
/// follow.
pub proof fn lemma_pipe_run_stable(
    pair: HidDeviceDescriptors,
    granted: Seq<Allocation>,
    later: Seq<Allocation>,
    at: int,
)
    requires
        extends_requests(granted, later, later.len() - granted.len()),
        pipe_run(pair, granted, at) matches Some((end, _)) && end <= granted.len(),
    ensures
        pipe_run(pair, later, at) == pipe_run(pair, granted, at),
{
    assert(later[at] == granted[at]);
    if granted[at].address is Some {
        assert(later[at + 1] == granted[at + 1]);
    }
}


/// An attached device: its slot and the phase it is in.
pub struct Device {
    pub slot: DeviceSlot,
    pub phase: DevicePhase,
    /// The address of the input context of the device, as the controller
    /// sees it.
    pub input_context_addr: u64,
}

/// The error for a command or a transfer that completed without success.
pub open spec fn completion_failed(completion_code: u8) -> PciError {
    PciError::FailedOperateDevice(DeviceReason::CompletionFailed { completion_code })
}

/// The mouse and keyboard interfaces of a device in the phase `phase`.
pub open spec fn pairs_of(phase: DevicePhase) -> Seq<HidDeviceDescriptors> {
    match phase {
        DevicePhase::Operational(operational) => operational.hid_device_descriptors@,
        _ => Seq::empty(),
    }
}

/// A device that went through `transition` and has the slot `slot` now is
/// ready for the command that configures its endpoints and has no pipes
/// yet.
pub open spec fn wants_pipes(transition: Transition, slot: DeviceSlot) -> bool {
    &&& transition.status.is_initialised()
    &&& transition.report is None
    &&& slot.mouse_pipe is None
    &&& slot.keyboard_pipe is None
}

/// What [`deliver`] makes of the device `device0` on `event`, step by
/// step: `target` is what looking up the block of the event gave, with the
/// slot `mid` and the accesses `tm` after it; `transition` is what the
/// phase of the device made of the event, with the phase `served` and the
/// slot `handled` after it. `device1` is the device after the call, `t0`
/// and `t1` are the accesses made before and after it, `r` is its result,
/// and the requests of `granted` from index `at` on are those of the call.
///
/// The block of the event is looked up, see [`targeted`]; the phase of the
/// device handles the event, see [`phase_handled`], and the device enters
/// the phase that comes of it; a device that is then ready for the command
/// that configures its endpoints, and has no pipes yet, gets its pipes, see
/// [`pipes_made`], and the result says so. The first step that fails ends
/// the call with its error.
pub open spec fn delivered_via(
    mid: DeviceSlot,
    tm: Seq<Access>,
    target: PciResult<TargetEvent>,
    handled: DeviceSlot,
    served: DevicePhase,
    transition: PciResult<Transition>,
    device0: Device,
    device1: Device,
    t0: Seq<Access>,
    t1: Seq<Access>,
    granted: Seq<Allocation>,
    at: int,
    event: TransferEvent,
    r: PciResult<(Option<InputReport>, bool)>,
) -> bool {
    &&& device1.input_context_addr == device0.input_context_addr
    &&& targeted(device0.slot, mid, t0, tm, event, target)
    &&& match target {
        Err(e) => {
            &&& r is Err
            &&& r->Err_0 == e
            &&& device1.slot == mid
            &&& device1.phase == device0.phase
            &&& t1 == tm
            &&& granted.len() == at
        },
        Ok(found) => {
            &&& phase_handled(device0.phase, served, mid, handled, tm, t1, event, found, transition)
            &&& match transition {
                Err(e) => {
                    &&& r is Err
                    &&& r->Err_0 == e
                    &&& device1.slot == handled
                    &&& device1.phase == served
                    &&& granted.len() == at
                },
                Ok(made) => {
                    &&& device1.phase == match made.next {
                        Some(next) => next,
                        None => served,
                    }
                    &&& if wants_pipes(made, handled) {
                        &&& pipes_made(
                            pairs_of(device1.phase),
                            handled,
                            device1.slot,
                            granted,
                            at,
                            match r {
                                Ok(_) => Ok(()),
                                Err(e) => Err(e),
                            },
                        )
                        &&& r matches Ok(given) ==> given == (made.report, true)
                    } else {
                        &&& device1.slot == handled
                        &&& granted.len() == at
                        &&& r is Ok
                        &&& r->Ok_0 == (made.report, false)
                    }
                },
            }
        },
    }
}

/// What [`deliver`] makes of the device `device0` on `event`: the device
/// `device1` and the result `r`, with the accesses `t0` made before and
/// `t1` after, and the requests of `granted` from index `at` on.
///
/// A transfer that neither succeeded nor came up short is reported with
/// `CompletionFailed` and changes nothing. Any other is handled in the
/// steps of [`delivered_via`].
pub open spec fn delivered(
    device0: Device,
    device1: Device,
    t0: Seq<Access>,
    t1: Seq<Access>,
    granted: Seq<Allocation>,
    at: int,
    event: TransferEvent,
    r: PciResult<(Option<InputReport>, bool)>,
) -> bool {
    if event.completion_code != 1 && event.completion_code != 13 {
        &&& r is Err
        &&& r->Err_0 == completion_failed(event.completion_code)
        &&& device1 == device0
        &&& t1 == t0
        &&& granted.len() == at
    } else {
        exists|
            mid: DeviceSlot,
            tm: Seq<Access>,
            target: PciResult<TargetEvent>,
            handled: DeviceSlot,
            served: DevicePhase,
            transition: PciResult<Transition>,
        |
            #[trigger] delivered_via(
                mid,
                tm,
                target,
                handled,
                served,
                transition,
                device0,
                device1,
                t0,
                t1,
                granted,
                at,
                event,
                r,
            )
    }
}

/// Hands the completion of a transfer to the device it is for; see
/// [`delivered`]. Returns the report that the event carried, if it carried
/// one, and whether the device got its pipes, so that the command that
/// configures its endpoints is due.
pub fn deliver<M: VolatileMemory, A: MemoryAllocatable>(
    device: &mut Device,
    mem: &mut M,
    allocator: &mut A,
    event: TransferEvent,
) -> (r: PciResult<(Option<InputReport>, bool)>)
    requires
        old(device).slot.wf(),
    ensures
        final(device).slot.wf(),
        final(device).slot.slot_id == old(device).slot.slot_id,
        final(device).phase.rank() >= old(device).phase.rank(),
        extends(old(mem).history(), final(mem).history()),
        extends_requests(old(allocator).granted(), final(allocator).granted(), 4),
        delivered(
            *old(device),
            *final(device),
            old(mem).history(),
            final(mem).history(),
            final(allocator).granted(),
            old(allocator).granted().len() as int,
            event,
            r,
        ),
{
    if event.completion_code != COMPLETION_SUCCESS && event.completion_code
        != COMPLETION_SHORT_PACKET {
        return Err(
            PciError::FailedOperateDevice(
                DeviceReason::CompletionFailed { completion_code: event.completion_code },
            ),
        );
    }
    let ghost device0 = *device;
    let ghost t0 = mem.history();
    let ghost at = allocator.granted().len() as int;
    let looked_up = target_of(&mut device.slot, mem, event);
    let ghost mid = device.slot;
    let ghost tm = mem.history();
    let target = match looked_up {
        Ok(target) => target,
        Err(e) => {
            proof {
                assert(delivered_via(
                    mid,
                    tm,
                    looked_up,
                    mid,
                    device0.phase,
                    Err(e),
                    device0,
                    *device,
                    t0,
                    mem.history(),
                    allocator.granted(),
                    at,
                    event,
                    Err(e),
                ));
            }
            return Err(e);
        },
    };
    let served = device.phase.on_transfer_event_received(&mut device.slot, mem, event, target);
    let ghost handled = device.slot;
    let ghost phase = device.phase;
    let ghost outcome = served;
    proof {
        lemma_extends_transitive(t0, tm, mem.history());
    }
    let transition = match served {
        Ok(transition) => transition,
        Err(e) => {
            proof {
                assert(delivered_via(
                    mid,
                    tm,
                    looked_up,
                    handled,
                    phase,
                    outcome,
                    device0,
                    *device,
                    t0,
                    mem.history(),
                    allocator.granted(),
                    at,
                    event,
                    Err(e),
                ));
            }
            return Err(e);
        },
    };
    let report = transition.report;
    let ready = transition.status.is_initialised();
    if let Some(next) = transition.next {
        device.phase = next;
    }
    let configure = ready && report.is_none() && device.slot.mouse_pipe.is_none()
        && device.slot.keyboard_pipe.is_none();
    if configure {
        let made = match &device.phase {
            DevicePhase::Operational(operational) => make_pipes(
                &mut device.slot,
                &operational.hid_device_descriptors,
                allocator,
            ),
            _ => make_pipes(&mut device.slot, &Vec::new(), allocator),
        };
        match made {
            Ok(_) => {},
            Err(e) => {
                proof {
                    assert(delivered_via(
                        mid,
                        tm,
                        looked_up,
                        handled,
                        phase,
                        outcome,
                        device0,
                        *device,
                        t0,
                        mem.history(),
                        allocator.granted(),
                        at,
                        event,
                        Err(e),
                    ));
                }
                return Err(e);
            },
        }
    }
    proof {
        assert(delivered_via(
            mid,
            tm,
            looked_up,
            handled,
            phase,
            outcome,
            device0,
            *device,
            t0,
            mem.history(),
            allocator.granted(),
            at,
            event,
            Ok((report, configure)),
        ));
    }
    Ok((report, configure))
}


/// The accesses that ask for the first report on `pipe` and ring the
/// doorbell at `doorbell` for its endpoint; none where there is no pipe or
/// its ring is full.
pub open spec fn arm_accesses(pipe: Option<InterruptPipe>, doorbell: usize) -> Seq<Access> {
    match pipe {
        Some(pipe) => if pipe.ring@.full() {
            Seq::empty()
        } else {
            transfer_accesses(pipe.ring@, seq![next_report(pipe.buffer_addr)], doorbell, pipe.dci)
        },
        None => Seq::empty(),
    }
}

/// `pipe` is a pipe whose ring is full.
pub open spec fn is_full(pipe: Option<InterruptPipe>) -> bool {
    pipe matches Some(pipe) && pipe.ring@.full()
}

/// `after` is `before` with the block that asks for a report enqueued on
/// its ring, if there is a pipe and its ring has room.
pub open spec fn pipe_armed(before: Option<InterruptPipe>, after: Option<InterruptPipe>) -> bool {
    match before {
        None => after is None,
        Some(pipe) => {
            &&& after matches Some(armed)
            &&& armed.dci == pipe.dci
            &&& armed.buffer_addr == pipe.buffer_addr
            &&& armed.buffer == pipe.buffer
            &&& armed.ring@ == if pipe.ring@.full() {
                pipe.ring@
            } else {
                pipe.ring@.enqueue(next_report(pipe.buffer_addr))
            }
        },
    }
}

/// What [`arm`] makes of the slot `slot0`: the slot `slot1` and the result
/// `r`, with the accesses `t0` made before and `t1` after.
///
/// A report is asked for on the pipe of the mouse and then on that of the
/// keyboard, as far as the slot has them, and the doorbell of the slot is
/// rung for each. A pipe whose ring is full ends the call with `Full`.
/// Nothing else of the slot changes.
pub open spec fn armed(
    slot0: DeviceSlot,
    slot1: DeviceSlot,
    t0: Seq<Access>,
    t1: Seq<Access>,
    r: PciResult,
) -> bool {
    &&& slot1.slot_id == slot0.slot_id
    &&& slot1.input_context == slot0.input_context
    &&& slot1.doorbell == slot0.doorbell
    &&& slot1.data_buff_addr == slot0.data_buff_addr
    &&& slot1.data_buff == slot0.data_buff
    &&& slot1.default_control_pipe == slot0.default_control_pipe
    &&& pipe_armed(slot0.mouse_pipe, slot1.mouse_pipe)
    &&& if is_full(slot0.mouse_pipe) {
        &&& r is Err
        &&& r->Err_0 == ring_full()
        &&& slot1.keyboard_pipe == slot0.keyboard_pipe
        &&& t1 == t0
    } else {
        &&& pipe_armed(slot0.keyboard_pipe, slot1.keyboard_pipe)
        &&& t1 == t0 + arm_accesses(slot0.mouse_pipe, slot0.doorbell.addr()) + arm_accesses(
            slot0.keyboard_pipe,
            slot0.doorbell.addr(),
        )
        &&& if is_full(slot0.keyboard_pipe) {
            r is Err && r->Err_0 == ring_full()
        } else {
            r is Ok
        }
    }
}

fn arm_pipe<M: VolatileMemory>(pipe: &mut InterruptPipe, doorbell: Doorbell, mem: &mut M) -> (r:
    PciResult)
    requires
        old(pipe).wf(),
    ensures
        final(pipe).wf(),
        pipe_armed(Some(*old(pipe)), Some(*final(pipe))),
        final(mem).history() == old(mem).history() + arm_accesses(Some(*old(pipe)), doorbell.addr()),
        old(pipe).ring@.full() ==> r is Err && r->Err_0 == ring_full(),
        !old(pipe).ring@.full() ==> r is Ok,
{
    let ghost start = pipe.ring@;
    let ghost block = next_report(pipe.buffer_addr);
    proof {
        if !start.full() {
            lemma_enqueue_wf(start, block);
            lemma_enqueue_one(start, block);
        }
    }
    match pipe.ring.enqueue(mem, Trb::normal(pipe.buffer_addr, REPORT_BUFF_SIZE as u32)) {
        Ok(_) => {
            doorbell.notify(mem, pipe.dci, 0);
            proof {
                assert(mem.history() =~= old(mem).history() + arm_accesses(
                    Some(*old(pipe)),
                    doorbell.addr(),
                ));
            }
            Ok(())
        },
        Err(e) => {
            proof {
                assert(mem.history() =~= old(mem).history() + arm_accesses(
                    Some(*old(pipe)),
                    doorbell.addr(),
                ));
            }
            Err(e)
        },
    }
}

/// Asks for the first report on each pipe of the input device in `slot`;
/// see [`armed`].
pub fn arm<M: VolatileMemory>(slot: &mut DeviceSlot, mem: &mut M) -> (r: PciResult)
    requires
        old(slot).wf(),
    ensures
        final(slot).wf(),
        extends(old(mem).history(), final(mem).history()),
        armed(*old(slot), *final(slot), old(mem).history(), final(mem).history(), r),
{
    let doorbell = slot.doorbell;
    let ghost t0 = mem.history();
    if slot.mouse_pipe.is_some() {
        let mut pipe = slot.mouse_pipe.take().unwrap();
        let r = arm_pipe(&mut pipe, doorbell, mem);
        slot.mouse_pipe = Some(pipe);
        match r {
            Ok(_) => {},
            Err(e) => {
                proof {
                    assert(mem.history() =~= t0);
                }
                return Err(e);
            },
        }
    }
    let ghost t1 = mem.history();
    proof {
        assert(t1 =~= t0 + arm_accesses(old(slot).mouse_pipe, doorbell.addr()));
    }
    if slot.keyboard_pipe.is_some() {
        let mut pipe = slot.keyboard_pipe.take().unwrap();
        let r = arm_pipe(&mut pipe, doorbell, mem);
        slot.keyboard_pipe = Some(pipe);
        proof {
            assert(mem.history() =~= t0 + arm_accesses(old(slot).mouse_pipe, doorbell.addr())
                + arm_accesses(old(slot).keyboard_pipe, doorbell.addr()));
        }
        return r;
    }
    proof {
        assert(mem.history() =~= t0 + arm_accesses(old(slot).mouse_pipe, doorbell.addr())
            + arm_accesses(old(slot).keyboard_pipe, doorbell.addr()));
    }
    Ok(())
}

} // verus!
