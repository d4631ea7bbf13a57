//! The ways in which a request to the library can fail.

use vstd::prelude::*;

verus! {

/// Why a request was not carried out.
#[derive(Clone, Copy, Debug, PartialEq, Eq, Structural)]
pub enum Error {
    /// A screen-info buffer does not have the size of the structure it
    /// should hold, or describes colour channels that cannot coexist.
    MalformedGeometry,
    /// The region to refresh reaches beyond the virtual resolution.
    RegionOutOfBounds,
    /// The device refused the update; its marker has been retired.
    SubmitRejected,
    /// The marker was never issued, or has been retired already.
    UnknownMarker,
    /// The device did not report the end of the update.
    DeviceTimeout,
    /// The first submission failed for a reason other than the layout
    /// version, so no version could be settled.
    DispatcherInitFailed,
    /// The active layout version has no such operation.
    UnsupportedOperation,
}

/// What the device driver answered to a request that it did not carry out.
#[derive(Clone, Copy, Debug, PartialEq, Eq, Structural)]
pub enum DeviceError {
    /// The driver does not know the request (`ENOTTY`).
    UnknownRequest,
    /// The driver does not accept the argument (`EINVAL`).
    InvalidArgument,
    /// The device is busy (`EBUSY`).
    Busy,
    /// The driver gave up waiting (`ETIMEDOUT`).
    TimedOut,
    /// Any other failure.
    Other,
}

impl DeviceError {
    /// Whether the failure tells that the driver expects another layout of
    /// the request structure. The size of the structure is part of the
    /// request number, so a driver built for another layout does not know
    /// the request, or rejects its argument.
    pub open spec fn is_version_mismatch(self) -> bool {
        self == DeviceError::UnknownRequest || self == DeviceError::InvalidArgument
    }

    /// Whether the failure tells that the driver expects another layout.
    pub fn version_mismatch(&self) -> (b: bool)
        ensures
            b == self.is_version_mismatch(),
    {
        match self {
            DeviceError::UnknownRequest => true,
            DeviceError::InvalidArgument => true,
            _ => false,
        }
    }
}

} // verus!
