use vstd::prelude::*;

use crate::error::DeviceReason;
use crate::error::PciError;
use crate::error::PciResult;
use crate::trb::Event;
use crate::trb::Trb;

verus! {

/// The report of the controller that a transfer has completed.
#[derive(Debug, Clone, Copy, PartialEq, Eq, Structural)]
pub struct TransferEvent {
    /// The address of the block that completed.
    pub trb_pointer: u64,
    /// The number of bytes asked for that were not transferred.
    pub trb_transfer_length: u32,
    pub completion_code: u8,
    pub endpoint_id: u8,
    pub slot_id: u8,
}

impl TransferEvent {
    /// The transfer event in `event`, if it is one.
    pub open spec fn spec_from_event(event: Event) -> Option<TransferEvent> {
        match event {
            Event::Transfer {
                trb_pointer,
                residual_length,
                completion_code,
                endpoint_id,
                slot_id,
            } => Some(
                TransferEvent {
                    trb_pointer,
                    trb_transfer_length: residual_length,
                    completion_code,
                    endpoint_id,
                    slot_id,
                },
            ),
            _ => None,
        }
    }

    #[verifier::when_used_as_spec(spec_from_event)]
    pub fn from_event(event: Event) -> (transfer: Option<TransferEvent>)
        ensures
            transfer == Self::spec_from_event(event),
    {
        match event {
            Event::Transfer {
                trb_pointer,
                residual_length,
                completion_code,
                endpoint_id,
                slot_id,
            } => Some(
                TransferEvent {
                    trb_pointer,
                    trb_transfer_length: residual_length,
                    completion_code,
                    endpoint_id,
                    slot_id,
                },
            ),
            _ => None,
        }
    }
}

/// A block that moves data: the buffer it points at and the number of
/// bytes it asks for.
#[derive(Debug, Clone, Copy, PartialEq, Eq, Structural)]
pub struct DataStage {
    pub data_buffer_pointer: u64,
    pub trb_transfer_length: u32,
}

/// The block of a transfer ring that a transfer event points at.
#[derive(Debug, Clone, Copy, PartialEq, Eq, Structural)]
pub enum TargetEvent {
    Normal(DataStage),
    Setup,
    DataStage(DataStage),
    StatusStage,
    /// A block of a type that raises no transfer event.
    Unsupported { trb_type: u8 },
}

/// The error for a transfer event that points at a block of a kind the
/// device does not wait for.
pub open spec fn unexpected_transfer() -> PciError {
    PciError::FailedOperateDevice(DeviceReason::UnexpectedTransfer)
}

/// The error for a transfer event that reports more bytes left over than
/// were asked for, or more bytes moved than the buffer holds.
pub open spec fn invalid_transfer_length() -> PciError {
    PciError::FailedOperateDevice(DeviceReason::InvalidTransferLength)
}

impl TargetEvent {
    /// The kind of the block `trb`, with what the driver reads of it.
    pub open spec fn spec_from_trb(trb: Trb) -> TargetEvent {
        let stage = DataStage {
            data_buffer_pointer: trb.parameter,
            trb_transfer_length: trb.status & 0x1_ffff,
        };
        let trb_type = trb.spec_trb_type();
        if trb_type == 1 {
            TargetEvent::Normal(stage)
        } else if trb_type == 2 {
            TargetEvent::Setup
        } else if trb_type == 3 {
            TargetEvent::DataStage(stage)
        } else if trb_type == 4 {
            TargetEvent::StatusStage
        } else {
            TargetEvent::Unsupported { trb_type }
        }
    }

    /// The data stage in this block, or the error for a block that is none.
    pub open spec fn spec_data_stage(&self) -> PciResult<DataStage> {
        match self {
            TargetEvent::DataStage(stage) => Ok(*stage),
            _ => Err(unexpected_transfer()),
        }
    }

    #[verifier::when_used_as_spec(spec_from_trb)]
    pub fn from_trb(trb: Trb) -> (target: TargetEvent)
        ensures
            target == Self::spec_from_trb(trb),
    {
        let stage = DataStage {
            data_buffer_pointer: trb.parameter,
            trb_transfer_length: trb.status & 0x1_ffff,
        };
        let trb_type = trb.trb_type();
        if trb_type == 1 {
            TargetEvent::Normal(stage)
        } else if trb_type == 2 {
            TargetEvent::Setup
        } else if trb_type == 3 {
            TargetEvent::DataStage(stage)
        } else if trb_type == 4 {
            TargetEvent::StatusStage
        } else {
            TargetEvent::Unsupported { trb_type }
        }
    }

    #[verifier::when_used_as_spec(spec_data_stage)]
    pub fn data_stage(&self) -> (stage: PciResult<DataStage>)
        ensures
            stage == self.spec_data_stage(),
    {
        match self {
            TargetEvent::DataStage(stage) => Ok(*stage),
            _ => Err(PciError::FailedOperateDevice(DeviceReason::UnexpectedTransfer)),
        }
    }
}

/// The number of bytes a transfer moved: what the block asked for less
/// what the event reports as left over. `None` where more is left over
/// than was asked for.
pub open spec fn transferred(stage: DataStage, event: TransferEvent) -> Option<int> {
    if event.trb_transfer_length <= stage.trb_transfer_length {
        Some(stage.trb_transfer_length - event.trb_transfer_length)
    } else {
        None
    }
}

} // verus!
