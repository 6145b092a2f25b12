//! Error kinds of the channel, and the error codes a peer may report.

use vstd::prelude::*;

verus! {

/// Why an operation of the channel failed.
#[derive(Clone, Copy, Debug, PartialEq, Eq, Structural)]
pub enum Error {
    /// The operation is not valid in the current state.
    UnexpectedInput,
    /// The peer sent structurally invalid data.
    MalformedData,
    /// A buffer provided by the caller is too small.
    InsufficientBuffer,
    /// The key exchange did not validate.
    HandshakeFailed,
    /// A checksum or an authentication tag did not match.
    InvalidDigest,
}

/// An error code that the peer reports in an error datagram.
#[derive(Clone, Copy, Debug, PartialEq, Eq, Structural)]
pub enum TransportError {
    TransportBusy,
    UnallocatedChannel,
    DecryptionFailed,
    InvalidData,
    DeviceLocked,
}

impl TransportError {
    /// The code that stands for this error on the wire.
    pub open spec fn code_of(self) -> u8 {
        match self {
            TransportError::TransportBusy => 1,
            TransportError::UnallocatedChannel => 2,
            TransportError::DecryptionFailed => 3,
            TransportError::InvalidData => 4,
            TransportError::DeviceLocked => 5,
        }
    }

    /// The error that a wire code stands for, if any.
    pub open spec fn decode(code: u8) -> Option<TransportError> {
        if code == 1 {
            Some(TransportError::TransportBusy)
        } else if code == 2 {
            Some(TransportError::UnallocatedChannel)
        } else if code == 3 {
            Some(TransportError::DecryptionFailed)
        } else if code == 4 {
            Some(TransportError::InvalidData)
        } else if code == 5 {
            Some(TransportError::DeviceLocked)
        } else {
            None
        }
    }

    /// Encodes the error as its wire code.
    pub fn code(self) -> (r: u8)
        ensures
            r == self.code_of(),
            Self::decode(r) == Some(self),
    {
        match self {
            TransportError::TransportBusy => 1,
            TransportError::UnallocatedChannel => 2,
            TransportError::DecryptionFailed => 3,
            TransportError::InvalidData => 4,
            TransportError::DeviceLocked => 5,
        }
    }

    /// Decodes a wire code; an unknown code is malformed data.
    pub fn from_code(code: u8) -> (r: Result<TransportError, Error>)
        ensures
            r == match Self::decode(code) {
                Some(e) => Ok::<TransportError, Error>(e),
                None => Err::<TransportError, Error>(Error::MalformedData),
            },
    {
        match code {
            1 => Ok(TransportError::TransportBusy),
            2 => Ok(TransportError::UnallocatedChannel),
            3 => Ok(TransportError::DecryptionFailed),
            4 => Ok(TransportError::InvalidData),
            5 => Ok(TransportError::DeviceLocked),
            _ => Err(Error::MalformedData),
        }
    }
}

} // verus!
