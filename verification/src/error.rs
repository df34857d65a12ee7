//! The ways in which a transfer can fail.

use vstd::prelude::*;

verus! {

/// Why a transfer, or one worker of it, stopped without finishing.
#[derive(Clone, Copy, Debug, PartialEq, Eq, Structural)]
pub enum TransferError {
    /// The probe response declared no length.
    LengthUnavailable,
    /// The probe response declared a length that is not a decimal `u64`.
    LengthUnparsable,
    /// The worker count is zero or larger than the resource's length.
    InvalidWorkerCount,
    /// A request could not be built or sent.
    RequestError,
    /// The server sent more than the requested range holds.
    RangeNotSupported,
    /// A response ended cleanly without delivering anything of a range that
    /// is still incomplete.
    ShortRead,
    /// Writing to the output failed.
    IoError,
}

impl TransferError {
    /// True for the errors that arise before any worker exists.
    pub open spec fn before_start(self) -> bool {
        self == TransferError::LengthUnavailable || self == TransferError::LengthUnparsable
            || self == TransferError::InvalidWorkerCount
    }

    /// Tells whether the error arose before any worker existed.
    pub fn is_before_start(&self) -> (r: bool)
        ensures
            r == self.before_start(),
    {
        match self {
            TransferError::LengthUnavailable => true,
            TransferError::LengthUnparsable => true,
            TransferError::InvalidWorkerCount => true,
            _ => false,
        }
    }
}

} // verus!
