use vstd::prelude::*;

use crate::error::HeaderTypeReason;
use crate::error::PciError;
use crate::error::PciResult;

verus! {

/// Where a function of a device lies in the configuration space.
#[derive(Debug, Clone, Copy, PartialEq, Eq, Structural)]
pub struct ConfigAddr {
    pub bus: u8,
    pub device: u8,
    pub function: u8,
}

/// The configuration space header of an ordinary device.
#[derive(Debug, Clone, Copy, PartialEq, Eq, Structural)]
pub struct GeneralHeader {
    pub config_addr: ConfigAddr,
}

/// The configuration space header of a bridge between two buses.
#[derive(Debug, Clone, Copy, PartialEq, Eq, Structural)]
pub struct PciToPciBridgeHeader {
    pub config_addr: ConfigAddr,
}

/// A device with a single function, by the type of its header.
#[derive(Debug, Clone, Copy, PartialEq, Eq, Structural)]
pub enum SingleFunctionDevice {
    General(GeneralHeader),
    PciToPciBride(PciToPciBridgeHeader),
}

/// The error for a header that is not that of an ordinary device.
pub open spec fn not_general_header() -> PciError {
    PciError::InvalidHeaderType(HeaderTypeReason::NotGeneralHeader)
}

impl SingleFunctionDevice {
    /// The header of the device if it is an ordinary device, the error
    /// `NotGeneralHeader` if it is a bridge.
    pub fn expect_general(self) -> (r: PciResult<GeneralHeader>)
        ensures
            r == match self {
                SingleFunctionDevice::General(general) => Ok::<GeneralHeader, PciError>(general),
                SingleFunctionDevice::PciToPciBride(_) => Err::<GeneralHeader, PciError>(
                    not_general_header(),
                ),
            },
    {
        if let Self::General(general) = self {
            Ok(general)
        } else {
            Err(PciError::InvalidHeaderType(HeaderTypeReason::NotGeneralHeader))
        }
    }
}

} // verus!
