//! Host side of a secure channel protocol between a companion application and a
//! hardware authenticator: channel allocation, a Noise XX handshake, message
//! fragmentation with a trailing CRC-32, and alternating-bit acknowledgment.

use vstd::prelude::*;

pub mod alternating_bit;
pub mod buffer;
pub mod channel;
pub mod control_byte;
pub mod crc32;
pub mod credential;
pub mod engine;
pub mod error;
pub mod fragment;
pub mod header;
pub mod noise;

pub use channel::ChannelState;
pub use credential::CredentialStore;
pub use error::Error;

verus! {

/// The side of the protocol that a state value belongs to.
pub trait Role: Clone + PartialEq + Default {
    /// Whether this role is the host.
    spec fn host() -> bool;

    fn is_host() -> (r: bool)
        ensures
            r == Self::host(),
    ;
}

/// Protocol states of the device side.
#[derive(Clone, Copy, Debug, PartialEq, Eq, Structural)]
pub enum Device {
    Unallocated,
    Handshake1,
    Handshake2,
    Pairing0,
    Pairing1,
    Pairing2,
    Pairing3,
    Pairing4,
    Credential1,
    EncryptedTransport,
    Invalidated,
}

impl Role for Device {
    open spec fn host() -> bool {
        false
    }

    fn is_host() -> (r: bool) {
        false
    }
}

impl Default for Device {
    fn default() -> (r: Self)
        ensures
            r == Device::Unallocated,
    {
        Device::Unallocated
    }
}

/// Protocol states of the host side.
#[derive(Clone, Copy, Debug, PartialEq, Eq, Structural)]
pub enum Host {
    Unallocated,
    Handshake0,
    Handshake1,
    Handshake2,
    Pairing0,
    Pairing1,
    Pairing2,
    Pairing3a,
    Pairing3b,
    Pairing4,
    Pairing5,
    Pairing6,
    Pairing7,
    Credential0,
    Credential1,
    EncryptedTransport,
}

impl Role for Host {
    open spec fn host() -> bool {
        true
    }

    fn is_host() -> (r: bool) {
        true
    }
}

impl Default for Host {
    fn default() -> (r: Self)
        ensures
            r == Host::Unallocated,
    {
        Host::Unallocated
    }
}

} // verus!
