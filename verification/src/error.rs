use vstd::prelude::*;

verus! {

/// Why an operation on a controller register was refused or failed.
#[derive(Debug, Clone, Copy, PartialEq, Eq, Structural)]
#[allow(inconsistent_fields)]
pub enum OperationReason {
    /// The command ring has to be stopped before it can be reconfigured.
    MustBeCommandRingStopped,
    /// More event ring segments were asked for than the controller supports.
    ExceedsEventRingSegmentTableMax { max: u32, value: u16 },
    /// The host controller is running although it has to be halted.
    XhcRunning,
    /// A register was read back and did not hold the value written to it.
    NotReflectedValue { expect: usize, value: usize },
    /// A register did not take on the expected value within the allowed
    /// number of reads.
    SpinTimeout { expect: u64, attempts: usize },
}

/// Why an allocation for the controller failed.
#[derive(Debug, Clone, Copy, PartialEq, Eq, Structural)]
pub enum AllocateReason {
    NotEnoughMemory,
    NotAlignedAddress { expect_align_size: usize },
    InitializeGlobalAllocator,
}

/// Why a register was found in a state the driver cannot work with.
#[derive(Debug, Clone, Copy, PartialEq, Eq, Structural)]
pub enum InvalidRegisterReason {
    IllegalBitFlag { expect: bool },
    /// A capability register holds a length or an offset outside the
    /// range the architecture allows.
    InvalidOffset { value: usize },
}

/// Why a configuration space header was rejected.
#[derive(Debug, Clone, Copy, PartialEq, Eq, Structural)]
pub enum HeaderTypeReason {
    NotGeneralHeader,
}

/// Why a transfer ring, command ring or event ring operation failed.
#[derive(Debug, Clone, Copy, PartialEq, Eq, Structural)]
pub enum RingReason {
    /// Every usable slot still holds a block the consumer has not taken.
    Full,
    /// A ring needs at least one usable slot and the trailing link slot.
    TooSmall { capacity: usize },
    /// The consumer reported more blocks than are outstanding.
    NothingPending,
}

/// Why a descriptor buffer or a completion event could not be used.
#[derive(Debug, Clone, Copy, PartialEq, Eq, Structural)]
pub enum DeviceReason {
    /// A descriptor header announces a length that is shorter than a header,
    /// shorter than the layout of its type, or longer than the bytes left.
    MalformedDescriptor { offset: usize },
    /// The buffer does not begin with a configuration descriptor.
    NotConfigurationDescriptor,
    /// The completed transfer is not the data stage the phase waits for.
    UnexpectedTransfer,
    /// A command completed with a code other than success.
    CompletionFailed { completion_code: u8 },
    /// The event reports more residual bytes than the transfer asked for.
    InvalidTransferLength,
    /// The slot identifier is zero or above the number of enabled slots.
    InvalidSlot { slot_id: u8 },
}

/// Errors of the host controller driver.
#[derive(Debug, Clone, Copy, PartialEq, Eq, Structural)]
pub enum PciError {
    FailedOperateToRegister(OperationReason),
    FailedAllocate(AllocateReason),
    InvalidRegister(InvalidRegisterReason),
    InvalidHeaderType(HeaderTypeReason),
    FailedOperateRing(RingReason),
    FailedOperateDevice(DeviceReason),
}

pub type PciResult<T = ()> = Result<T, PciError>;

/// Why a layer operation failed.
#[derive(Debug, Clone, Copy, PartialEq, Eq, Structural)]
pub enum LayerReason {
    IllegalLayer,
}

/// Errors of the kernel support code.
#[derive(Debug, Clone, Copy, PartialEq, Eq, Structural)]
pub enum KernelError {
    ExceededFrameBufferSize,
    NotSupportCharacter,
    TryFromIntError,
    FailedOperateLayer(LayerReason),
    FailedAllocate(AllocateReason),
}

pub type KernelResult<T = ()> = Result<T, KernelError>;

} // verus!
