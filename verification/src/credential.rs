//! Where the keys of known pairings are kept.

use vstd::prelude::*;

verus! {

/// A store of pairings, kept outside the channel. A pairing is the private
/// key that the host used towards a device and the credential that the
/// device issued for it.
pub trait CredentialStore {
    /// The private key and the credential of the pairing with the device
    /// that shows `ephemeral` and `masked_static` in its handshake response,
    /// if there is one.
    fn lookup(&self, ephemeral: &[u8], masked_static: &[u8]) -> Option<([u8; 32], Vec<u8>)>;

    /// Keeps a pairing.
    fn store(&mut self, private_key: &[u8; 32], credential: &[u8]);
}

} // verus!
