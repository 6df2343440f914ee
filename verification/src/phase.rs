use vstd::prelude::*;

use crate::device_slot::DeviceSlot;
use crate::error::PciResult;
use crate::hid::InputReport;
use crate::phase1::Phase1;
use crate::phase2::Phase2;
use crate::phase2::configuration_handled;
use crate::phase3::interface_numbers;
use crate::phase3::report_handled;
use crate::phase3::Phase3;
use crate::transfer::unexpected_transfer;
use crate::transfer::TargetEvent;
use crate::transfer::TransferEvent;
use crate::volatile::extends;
use crate::volatile::Access;
use crate::volatile::VolatileMemory;

verus! {

/// Whether the device is ready for the command that configures its
/// endpoints.
#[derive(Debug, Clone, Copy, PartialEq, Eq, Structural)]
pub struct InitStatus(bool);

impl InitStatus {
    pub closed spec fn spec_is_initialised(&self) -> bool {
        self.0
    }

    pub closed spec fn spec_new(is_initialized: bool) -> Self {
        Self(is_initialized)
    }

    #[verifier::when_used_as_spec(spec_new)]
    pub fn new(is_initialized: bool) -> (status: Self)
        ensures
            status == Self::spec_new(is_initialized),
            status.is_initialised() == is_initialized,
    {
        Self(is_initialized)
    }

    /// The status of a device that is not ready yet.
    pub fn not() -> (status: Self)
        ensures
            status == Self::spec_new(false),
            !status.is_initialised(),
    {
        Self::new(false)
    }

    /// The status of a device that is ready.
    pub fn initialized() -> (status: Self)
        ensures
            status == Self::spec_new(true),
            status.is_initialised(),
    {
        Self::new(true)
    }

    #[verifier::when_used_as_spec(spec_is_initialised)]
    pub fn is_initialised(&self) -> (initialised: bool)
        ensures
            initialised == self.spec_is_initialised(),
    {
        self.0
    }
}

/// A status is what it was made from.
pub proof fn lemma_init_status(is_initialized: bool)
    ensures
        InitStatus::new(is_initialized).is_initialised() == is_initialized,
{
}

/// The phase a device is in on its way to being used.
pub enum DevicePhase {
    /// The device has a slot and is being given an address.
    Addressing(Phase1),
    /// The device has an address and its configuration is being read.
    Configuration(Phase2),
    /// The device is configured and its reports are taken.
    Operational(Phase3),
}

impl DevicePhase {
    /// How far the device has come: 0 while it is addressed, 1 while it is
    /// configured, 2 once it is used.
    pub open spec fn rank(&self) -> int {
        match self {
            DevicePhase::Addressing(_) => 0,
            DevicePhase::Configuration(_) => 1,
            DevicePhase::Operational(_) => 2,
        }
    }
}

/// What handling the completion of a transfer makes of a device in the
/// phase `before` with the slot `slot0`: the phase `after`, the slot
/// `slot1` and the result `r`, with the accesses `t0` made before and `t1`
/// after. The phase the device is in decides.
pub open spec fn phase_handled(
    before: DevicePhase,
    after: DevicePhase,
    slot0: DeviceSlot,
    slot1: DeviceSlot,
    t0: Seq<Access>,
    t1: Seq<Access>,
    transfer_event: TransferEvent,
    target_event: TargetEvent,
    r: PciResult<Transition>,
) -> bool {
    match (before, after) {
        (DevicePhase::Addressing(addressing), DevicePhase::Addressing(same)) => {
            &&& r is Err
            &&& r->Err_0 == unexpected_transfer()
            &&& slot1 == slot0
            &&& same == addressing
            &&& t1 == t0
        },
        (
            DevicePhase::Configuration(configuration),
            DevicePhase::Configuration(same),
        ) => configuration_handled(
            configuration,
            same,
            slot0,
            slot1,
            t0,
            t1,
            transfer_event,
            target_event,
            r,
        ),
        (DevicePhase::Operational(operational), DevicePhase::Operational(next)) => report_handled(
            operational,
            next,
            slot0,
            slot1,
            t0,
            t1,
            transfer_event,
            target_event,
            r,
        ),
        _ => false,
    }
}

impl Phase for DevicePhase {
    open spec fn phase_rank(&self) -> int {
        self.rank()
    }

    /// Hands the event to the phase the device is in; see
    /// [`Phase1`], [`configuration_handled`] and [`report_handled`].
    fn on_transfer_event_received<M: VolatileMemory>(
        &mut self,
        slot: &mut DeviceSlot,
        mem: &mut M,
        transfer_event: TransferEvent,
        target_event: TargetEvent,
    ) -> (r: PciResult<Transition>)
        ensures
            phase_handled(
                *old(self),
                *final(self),
                *old(slot),
                *final(slot),
                old(mem).history(),
                final(mem).history(),
                transfer_event,
                target_event,
                r,
            ),
    {
        match self {
            DevicePhase::Addressing(phase) => phase.on_transfer_event_received(
                slot,
                mem,
                transfer_event,
                target_event,
            ),
            DevicePhase::Configuration(phase) => phase.on_transfer_event_received(
                slot,
                mem,
                transfer_event,
                target_event,
            ),
            DevicePhase::Operational(phase) => phase.on_transfer_event_received(
                slot,
                mem,
                transfer_event,
                target_event,
            ),
        }
    }

    fn interface_nums(&self) -> (nums: Option<Vec<u8>>)
        ensures
            match self {
                DevicePhase::Operational(phase) => nums matches Some(numbers) && numbers@
                    == interface_numbers(phase.hid_device_descriptors@),
                _ => nums is None,
            },
    {
        match self {
            DevicePhase::Addressing(phase) => phase.interface_nums(),
            DevicePhase::Configuration(phase) => phase.interface_nums(),
            DevicePhase::Operational(phase) => phase.interface_nums(),
        }
    }
}

/// What handling an event made of a device.
pub struct Transition {
    pub status: InitStatus,
    /// The phase the device enters; `None` where it stays in its phase.
    pub next: Option<DevicePhase>,
    /// The report of an input device that the event carried, if it carried
    /// one.
    pub report: Option<InputReport>,
}

impl Transition {
    /// The phase after this transition of a device that was in a phase of
    /// the rank `before`.
    pub open spec fn rank_after(&self, before: int) -> int {
        match self.next {
            Some(phase) => phase.rank(),
            None => before,
        }
    }
}

/// One phase of a device.
pub trait Phase {
    /// How far a device in this phase has come; see [`DevicePhase::rank`].
    spec fn phase_rank(&self) -> int;

    /// Handles the completion of a transfer of the device in `slot`.
    ///
    /// A device never falls back into an earlier phase, and an event that
    /// fails leaves it in the phase it is in.
    fn on_transfer_event_received<M: VolatileMemory>(
        &mut self,
        slot: &mut DeviceSlot,
        mem: &mut M,
        transfer_event: TransferEvent,
        target_event: TargetEvent,
    ) -> (r: PciResult<Transition>)
        requires
            old(slot).wf(),
        ensures
            final(slot).wf(),
            extends(old(mem).history(), final(mem).history()),
            final(self).phase_rank() == old(self).phase_rank(),
            r matches Ok(transition) ==> transition.rank_after(old(self).phase_rank()) >= old(self).phase_rank(),
    ;

    /// The numbers of the interfaces the device is used through; `None`
    /// before the device is configured.
    fn interface_nums(&self) -> (nums: Option<Vec<u8>>)
        ensures
            nums is Some <==> self.phase_rank() == 2,
    ;
}

} // verus!
