//! The handshake and transport state of a channel, on the host side.
//!
//! The host opens a Noise XX exchange with the device properties as
//! prologue, completes it when the response of the device arrives, and from
//! then on holds one cipher per direction.

use vstd::prelude::*;
use core::marker::PhantomData;
use crate::engine::{
    derived_ciphers, engine_ciphers, engine_clone, engine_completed, engine_for, engine_hash,
    engine_new, first_message,
    engine_read, engine_remote_ephemeral, engine_remote_static, engine_response_len,
    engine_set_static, engine_write_final, engine_write_first, generate_key, keyed_with,
    last_message, opened, read_response, remote_ephemeral_of, remote_static_of, sealed,
    sha256, sha256_digest, transcript_hash, transport_counter, transport_decrypt, transport_encrypt,
    transport_next_nonce, Engine, Transport, AWAITING, MAX_PLAINTEXT_LEN, RESPONDED,
};
use crate::error::Error;
use crate::{Host, Role};

verus! {

/// What a channel takes from its surroundings besides the transport: a
/// source of random bytes.
pub trait Backend {
    /// Fills `dest` with random bytes.
    fn random_bytes(dest: &mut [u8]);
}

/// A backend that takes its random bytes from the generator behind the key
/// agreement.
pub struct RustCrypto;

impl Backend for RustCrypto {
    fn random_bytes(dest: &mut [u8]) {
        let mut key = generate_key();
        let mut k: usize = 0;
        let mut i: usize = 0;
        while i < dest.len()
            invariant
                dest@.len() == old(dest)@.len(),
                k <= 32,
            decreases dest@.len() - i,
        {
            if k == 32 {
                key = generate_key();
                k = 0;
            }
            dest[i] = key[k];
            i += 1;
            k += 1;
        }
    }
}

/// Handshake and transport state.
pub enum NoiseState<R: Role> {
    /// No key material yet.
    Initial,
    /// The first handshake message is out; the response is awaited.
    Handshake { state: Engine<AWAITING> },
    /// The handshake is complete.
    Encrypted {
        /// Cipher of the messages to the peer.
        encrypt: Transport,
        /// Cipher of the messages from the peer.
        decrypt: Transport,
        /// Hash of the handshake transcript.
        handshake_hash: [u8; 32],
        /// Static public key of the peer.
        remote_static_key: [u8; 32],
        _phantom: PhantomData<R>,
    },
}

/// Copies `message` to the front of `dest` and returns its length. A `dest`
/// that does not hold the message is insufficient and left as it is.
pub fn deliver(message: &[u8], dest: &mut [u8]) -> (r: Result<usize, Error>)
    ensures
        message@.len() > old(dest)@.len() ==> r == Err::<usize, Error>(Error::InsufficientBuffer)
            && final(dest)@ == old(dest)@,
        message@.len() <= old(dest)@.len() ==> r == Ok::<usize, Error>(message@.len() as usize)
            && final(dest)@ == message@ + old(dest)@.skip(message@.len() as int),
{
    if message.len() > dest.len() {
        return Err(Error::InsufficientBuffer);
    }
    let mut i: usize = 0;
    assert(dest@ =~= message@.take(0) + old(dest)@.skip(0));
    while i < message.len()
        invariant
            i <= message@.len() <= dest@.len(),
            dest@.len() == old(dest)@.len(),
            dest@ == message@.take(i as int) + old(dest)@.skip(i as int),
        decreases message@.len() - i,
    {
        dest[i] = message[i];
        i += 1;
        assert(dest@ =~= message@.take(i as int) + old(dest)@.skip(i as int));
    }
    assert(message@.take(message@.len() as int) =~= message@);
    Ok(message.len())
}

/// The SHA-256 digest of `data1` followed by `data2`.
pub fn hash_of_two(data1: &[u8], data2: &[u8]) -> (digest: [u8; 32])
    ensures
        digest@ == sha256(data1@ + data2@),
{
    let mut joined: Vec<u8> = Vec::new();
    let mut i: usize = 0;
    while i < data1.len()
        invariant
            i <= data1@.len(),
            joined@ == data1@.take(i as int),
        decreases data1@.len() - i,
    {
        joined.push(data1[i]);
        i += 1;
        assert(joined@ =~= data1@.take(i as int));
    }
    let mut j: usize = 0;
    assert(joined@ =~= data1@ + data2@.take(0));
    while j < data2.len()
        invariant
            j <= data2@.len(),
            joined@ == data1@ + data2@.take(j as int),
        decreases data2@.len() - j,
    {
        joined.push(data2[j]);
        j += 1;
        assert(joined@ =~= data1@ + data2@.take(j as int));
    }
    assert(data2@.take(data2@.len() as int) =~= data2@);
    sha256_digest(joined.as_slice())
}

/// The payload of the first handshake message: one byte that tells whether
/// the device should try to unlock.
pub open spec fn unlock_payload(try_to_unlock: bool) -> Seq<u8> {
    seq![if try_to_unlock {
        1u8
    } else {
        0u8
    }]
}

/// The key that a handshake is completed with after the lookup gave
/// `answer`: the key of the known pairing, where there is one.
pub open spec fn key_chosen(answer: Option<[u8; 32]>, key: [u8; 32]) -> bool {
    answer is Some ==> key == answer->Some_0
}

/// What completing a handshake with the local static `key` and `credential`
/// leaves, after the response brought the handshake to `responded`: the last
/// message, and the established state with the ciphers and the transcript
/// hash that the exchange derives and the static key of the peer.
pub open spec fn pairing_completed(
    responded: Engine<RESPONDED>,
    key: Seq<u8>,
    credential: Seq<u8>,
    state: NoiseState<Host>,
    message: Seq<u8>,
) -> bool {
    let last = last_message(keyed_with(responded, key), credential);
    &&& message == last.1
    &&& state is Encrypted
    &&& state->encrypt == derived_ciphers(last.0).0
    &&& state->decrypt == derived_ciphers(last.0).1
    &&& state->handshake_hash@ == transcript_hash(last.0)
    &&& state->remote_static_key@ == remote_static_of(responded)
}

impl<R: Role> NoiseState<R> {
    /// Number of messages encrypted since the handshake.
    pub open spec fn sent(self) -> nat {
        match self {
            NoiseState::Encrypted { encrypt, .. } => transport_counter(encrypt),
            _ => 0,
        }
    }

    /// Number of messages decrypted since the handshake.
    pub open spec fn received(self) -> nat {
        match self {
            NoiseState::Encrypted { decrypt, .. } => transport_counter(decrypt),
            _ => 0,
        }
    }

    /// This state with other ciphers; nothing else of it changes.
    pub open spec fn with_ciphers(self, sending: Transport, receiving: Transport) -> Self {
        match self {
            NoiseState::Encrypted { handshake_hash, remote_static_key, _phantom, .. } => {
                NoiseState::Encrypted {
                    encrypt: sending,
                    decrypt: receiving,
                    handshake_hash,
                    remote_static_key,
                    _phantom,
                }
            },
            _ => self,
        }
    }

    /// Encrypts the first `plaintext_len` bytes of `in_out` in place and
    /// puts the 16 bytes of the tag behind them. Before the handshake is
    /// complete the call is unexpected; an `in_out` without room for the tag
    /// is insufficient; a plaintext over `MAX_PLAINTEXT_LEN`, and a cipher
    /// that has used up its nonces, are unexpected. On an error nothing
    /// changes. Else only the sending cipher moves on, by one message.
    pub fn encrypt(&mut self, in_out: &mut [u8], plaintext_len: usize) -> (r: Result<(), Error>)
        ensures
            final(in_out)@.len() == old(in_out)@.len(),
            r == (if !(*old(self) is Encrypted) {
                Err::<(), Error>(Error::UnexpectedInput)
            } else if plaintext_len + 16 > old(in_out)@.len() {
                Err::<(), Error>(Error::InsufficientBuffer)
            } else if plaintext_len > MAX_PLAINTEXT_LEN || old(self).sent() >= u64::MAX {
                Err::<(), Error>(Error::UnexpectedInput)
            } else {
                Ok::<(), Error>(())
            }),
            r is Ok ==> final(in_out)@.take(plaintext_len + 16) == sealed(
                old(self)->encrypt,
                old(in_out)@.take(plaintext_len as int),
            ) && final(in_out)@.skip(plaintext_len + 16) == old(in_out)@.skip(plaintext_len + 16)
                && *final(self) == old(self).with_ciphers(final(self)->encrypt, old(self)->decrypt)
                && *final(self) is Encrypted && final(self).sent() == old(self).sent() + 1,
            r is Err ==> *final(self) == *old(self) && final(in_out)@ == old(in_out)@,
    {
        match self {
            NoiseState::Encrypted { encrypt, .. } => {
                if plaintext_len > in_out.len() || in_out.len() - plaintext_len < 16 {
                    return Err(Error::InsufficientBuffer);
                }
                if plaintext_len as u64 > MAX_PLAINTEXT_LEN {
                    return Err(Error::UnexpectedInput);
                }
                if transport_next_nonce(encrypt) == u64::MAX {
                    return Err(Error::UnexpectedInput);
                }
                let _ = transport_encrypt(encrypt, in_out, plaintext_len);
                Ok(())
            },
            _ => Err(Error::UnexpectedInput),
        }
    }

    /// What `decrypt` returns for `message`. Before the handshake is
    /// complete the call is unexpected; a message too short for a tag is
    /// malformed; a cipher that has used up its nonces is unexpected; a
    /// message that the cipher does not open is an invalid digest. Else the
    /// length of the plaintext comes back, 16 less than that of the message.
    pub open spec fn decrypt_outcome(self, message: Seq<u8>) -> Result<usize, Error> {
        if !(self is Encrypted) {
            Err(Error::UnexpectedInput)
        } else if message.len() < 16 {
            Err(Error::MalformedData)
        } else if self.received() >= u64::MAX {
            Err(Error::UnexpectedInput)
        } else if opened(self->decrypt, message) is None {
            Err(Error::InvalidDigest)
        } else {
            Ok((message.len() - 16) as usize)
        }
    }

    /// Decrypts `in_out` in place, its last 16 bytes being the tag, and
    /// returns the length of the plaintext, which then stands at the front of
    /// `in_out`. On an error nothing changes. Else only the receiving cipher
    /// moves on, by one message.
    pub fn decrypt(&mut self, in_out: &mut [u8]) -> (r: Result<usize, Error>)
        ensures
            final(in_out)@.len() == old(in_out)@.len(),
            r == old(self).decrypt_outcome(old(in_out)@),
            r is Ok ==> final(in_out)@.take(r->Ok_0 as int) == opened(
                old(self)->decrypt,
                old(in_out)@,
            )->Some_0 && final(in_out)@.skip(r->Ok_0 as int) == old(in_out)@.skip(r->Ok_0 as int)
                && *final(self) == old(self).with_ciphers(old(self)->encrypt, final(self)->decrypt)
                && *final(self) is Encrypted && final(self).received() == old(self).received() + 1,
            r is Err ==> final(in_out)@ == old(in_out)@ && *final(self) == *old(self),
    {
        match self {
            NoiseState::Encrypted { decrypt, .. } => {
                if in_out.len() < 16 {
                    return Err(Error::MalformedData);
                }
                if transport_next_nonce(decrypt) == u64::MAX {
                    return Err(Error::UnexpectedInput);
                }
                match transport_decrypt(decrypt, in_out) {
                    Ok(n) => Ok(n),
                    Err(_) => Err(Error::InvalidDigest),
                }
            },
            _ => Err(Error::UnexpectedInput),
        }
    }
}

impl NoiseState<Host> {
    /// Opens the handshake: binds `device_properties` as prologue and writes
    /// the first message, a fresh ephemeral public key and one byte that
    /// tells whether the device should try to unlock, to the front of `dest`.
    /// Returns the length of the message, 33. Out of the initial state the
    /// call is unexpected; a `dest` under 33 bytes is insufficient. On an
    /// error nothing changes.
    pub fn start_pairing(&mut self, device_properties: &[u8], try_to_unlock: bool, dest: &mut [u8]) -> (r:
        Result<usize, Error>)
        ensures
            final(dest)@.len() == old(dest)@.len(),
            r == (if !(*old(self) is Initial) {
                Err::<usize, Error>(Error::UnexpectedInput)
            } else if old(dest)@.len() < 33 {
                Err::<usize, Error>(Error::InsufficientBuffer)
            } else {
                Ok::<usize, Error>(33)
            }),
            r is Ok ==> *final(self) is Handshake && final(dest)@[32] == (if try_to_unlock {
                1u8
            } else {
                0u8
            }) && final(dest)@.skip(33) == old(dest)@.skip(33) && exists|ephemeral: Seq<u8>| #[trigger]
                first_message(
                    engine_for(device_properties@),
                    unlock_payload(try_to_unlock),
                    ephemeral,
                ) == (final(self)->state, final(dest)@.take(33)),
            r is Err ==> *final(self) == *old(self) && final(dest)@ == old(dest)@,
    {
        if !matches!(*self, NoiseState::Initial) {
            return Err(Error::UnexpectedInput);
        }
        if dest.len() < 33 {
            return Err(Error::InsufficientBuffer);
        }
        let payload: [u8; 1] = [if try_to_unlock { 1u8 } else { 0u8 }];
        assert(payload@ =~= unlock_payload(try_to_unlock));
        let fresh = engine_new(device_properties);
        match engine_write_first(fresh, payload.as_slice()) {
            Ok((state, message)) => {
                let written = deliver(message.as_slice(), dest);
                assert(dest@.skip(33) =~= old(dest)@.skip(33));
                assert(dest@[32] == message@.skip(32)[0]);
                assert(dest@.take(33) =~= message@);
                *self = NoiseState::Handshake { state };
                written
            },
            Err(_) => Err(Error::HandshakeFailed),
        }
    }

    /// What `complete_pairing` returns for the response `incoming`, a
    /// credential of `credential_len` bytes and a `dest` of `room` bytes.
    /// Out of the handshake state the call is unexpected; a response of
    /// another length than 96 is malformed; a credential over
    /// `MAX_PLAINTEXT_LEN` is unexpected; the handshake has failed if the
    /// response is refused; a `dest` that does not hold the last message is
    /// insufficient. Else the length of the last message comes back, 64 more
    /// than that of the credential.
    pub open spec fn completion_outcome(self, incoming: Seq<u8>, credential_len: nat, room: nat)
        -> Result<usize, Error> {
        if !(self is Handshake) {
            Err(Error::UnexpectedInput)
        } else if incoming.len() != 96 {
            Err(Error::MalformedData)
        } else if credential_len > MAX_PLAINTEXT_LEN {
            Err(Error::UnexpectedInput)
        } else if read_response(self->state, incoming) is None {
            Err(Error::HandshakeFailed)
        } else if room < 64 + credential_len {
            Err(Error::InsufficientBuffer)
        } else {
            Ok((64 + credential_len) as usize)
        }
    }

    /// Completes the handshake with the response of the device in
    /// `incoming`. `cred_lookup` is asked, with the ephemeral and the static
    /// public key that the response brought, for the private key of a known
    /// pairing; without one a fresh key is drawn. The last message, the local
    /// static public key and `pairing_credential`, both encrypted, goes to
    /// the front of `dest`. On an error nothing changes.
    pub fn complete_pairing<F>(
        &mut self,
        incoming: &[u8],
        cred_lookup: F,
        pairing_credential: &[u8],
        dest: &mut [u8],
    ) -> (r: Result<usize, Error>) where F: FnOnce(&[u8], &[u8]) -> Option<[u8; 32]>
        requires
            forall|ephemeral: &[u8], masked_static: &[u8]|
                ephemeral@.len() == 32 && masked_static@.len() == 32 ==> call_requires(
                    cred_lookup,
                    (ephemeral, masked_static),
                ),
        ensures
            final(dest)@.len() == old(dest)@.len(),
            r == old(self).completion_outcome(
                incoming@,
                pairing_credential@.len(),
                old(dest)@.len(),
            ),
            r is Ok ==> final(self).sent() == 0 && final(self).received() == 0 && final(dest)@.skip(
                r->Ok_0 as int,
            ) == old(dest)@.skip(r->Ok_0 as int) && exists|
                ephemeral: &[u8],
                masked_static: &[u8],
                answer: Option<[u8; 32]>,
                key: [u8; 32],
            |
                #![trigger call_ensures(cred_lookup, (ephemeral, masked_static), answer), key_chosen(answer, key)]
                {
                    let responded = read_response(old(self)->state, incoming@)->Some_0;
                    &&& ephemeral@ == remote_ephemeral_of(responded)
                    &&& masked_static@ == remote_static_of(responded)
                    &&& call_ensures(cred_lookup, (ephemeral, masked_static), answer)
                    &&& key_chosen(answer, key)
                    &&& pairing_completed(
                        responded,
                        key@,
                        pairing_credential@,
                        *final(self),
                        final(dest)@.take(r->Ok_0 as int),
                    )
                },
            r is Err ==> *final(self) == *old(self) && final(dest)@ == old(dest)@,
    {
        let responded = match &*self {
            NoiseState::Handshake { state } => {
                if incoming.len() != engine_response_len(state) {
                    return Err(Error::MalformedData);
                }
                if pairing_credential.len() as u64 > MAX_PLAINTEXT_LEN {
                    return Err(Error::UnexpectedInput);
                }
                match engine_read(engine_clone(state), incoming) {
                    Ok(next) => next,
                    Err(_) => {
                        return Err(Error::HandshakeFailed);
                    },
                }
            },
            _ => {
                return Err(Error::UnexpectedInput);
            },
        };
        let remote_static = match engine_remote_static(&responded) {
            Some(key) => key,
            None => {
                return Err(Error::HandshakeFailed);
            },
        };
        let remote_ephemeral = match engine_remote_ephemeral(&responded) {
            Some(key) => key,
            None => {
                return Err(Error::HandshakeFailed);
            },
        };
        let ephemeral = remote_ephemeral.as_slice();
        let masked_static = remote_static.as_slice();
        let answer = cred_lookup(ephemeral, masked_static);
        let local_static = match answer {
            Some(key) => key,
            None => generate_key(),
        };
        assert(key_chosen(answer, local_static));
        let ghost responded_state = responded;
        let keyed = engine_set_static(responded, &local_static);
        let capacity: usize = dest.len();
        if pairing_credential.len() > usize::MAX - 64 || capacity < 64 + pairing_credential.len() {
            return Err(Error::InsufficientBuffer);
        }
        let (finished, message) = match engine_write_final(keyed, pairing_credential) {
            Ok(pair) => pair,
            Err(_) => {
                return Err(Error::HandshakeFailed);
            },
        };
        if !engine_completed(&finished) {
            return Err(Error::HandshakeFailed);
        }
        let (encrypt, decrypt) = engine_ciphers(&finished);
        let handshake_hash = engine_hash(&finished);
        let written = deliver(message.as_slice(), dest);
        assert(dest@.skip(message@.len() as int) =~= old(dest)@.skip(message@.len() as int));
        assert(dest@.take(message@.len() as int) =~= message@);
        *self = NoiseState::Encrypted {
            encrypt,
            decrypt,
            handshake_hash,
            remote_static_key: remote_static,
            _phantom: PhantomData,
        };
        assert(pairing_completed(
            responded_state,
            local_static@,
            pairing_credential@,
            *self,
            dest@.take(message@.len() as int),
        ));
        written
    }
}

} // verus!
