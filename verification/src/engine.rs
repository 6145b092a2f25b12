//! The Noise XX handshake and the transport ciphers of the `noise-protocol`
//! crate, over X25519, AES-256-GCM and SHA-256.
//!
//! Verus does not look into the crate. A handshake value carries in its type
//! how far the exchange has come, so that each call is made only where the
//! crate allows it; every function here makes one call and its contract is
//! taken on trust from the crate's source.

use vstd::prelude::*;
use noise_protocol::{U8Array, DH};

verus! {

/// Length of a public or private key.
pub const KEY_LEN: usize = 32;

/// Length of the tag that closes every encrypted part.
pub const TAG_LEN: usize = 16;

/// Length of the transcript hash.
pub const HASH_LEN: usize = 32;

/// Length of the first handshake message without its payload: the
/// ephemeral public key.
pub const FIRST_MESSAGE_OVERHEAD: usize = 32;

/// Length of the second handshake message: the ephemeral public key, the
/// encrypted static public key with its tag, and the tag of the empty payload.
pub const RESPONSE_LEN: usize = 96;

/// Length of the last handshake message without its payload: the encrypted
/// static public key with its tag, and the tag of the payload.
pub const FINAL_MESSAGE_OVERHEAD: usize = 64;

/// The longest plaintext that AES-GCM seals under one nonce: 2^36 bytes.
pub const MAX_PLAINTEXT_LEN: u64 = 0x10_0000_0000;

/// Nothing was written or read yet.
pub const FRESH: u8 = 0;

/// The first message was written; the response is awaited.
pub const AWAITING: u8 = 1;

/// The response was read; the remote keys are known, the local static key
/// is not set.
pub const RESPONDED: u8 = 2;

/// The local static key is set; the last message can be written.
pub const KEYED: u8 = 3;

/// All three messages are done.
pub const FINISHED: u8 = 4;

/// `noise_protocol::ErrorKind`, why a handshake message was refused;
/// nothing of its inside is known here.
#[verifier::external_type_specification]
#[verifier::external_body]
pub struct ExNoiseErrorKind(noise_protocol::ErrorKind);

/// A `noise_protocol::HandshakeState` of the initiator of the XX pattern.
/// `PHASE` tells how far the exchange has come.
#[verifier::external_body]
pub struct Engine<const PHASE: u8> {
    inner: noise_protocol::HandshakeState<
        noise_rust_crypto::X25519,
        noise_rust_crypto::Aes256Gcm,
        noise_rust_crypto::Sha256,
    >,
}

/// A `noise_protocol::CipherState`: the cipher of one direction.
#[verifier::external_body]
pub struct Transport {
    inner: noise_protocol::CipherState<noise_rust_crypto::Aes256Gcm>,
}

/// Number of messages that a cipher has processed, which is its next nonce.
pub uninterp spec fn transport_counter(transport: Transport) -> nat;

/// The handshake state that `HandshakeState::new` makes for the initiator
/// of the XX pattern with `prologue` and no keys.
pub uninterp spec fn engine_for(prologue: Seq<u8>) -> Engine<FRESH>;

/// The handshake state after `HandshakeState::write_message_vec` wrote the
/// first message with `payload` in `state`, having drawn the private key
/// `ephemeral`, and that message.
pub uninterp spec fn first_message(state: Engine<FRESH>, payload: Seq<u8>, ephemeral: Seq<u8>) -> (
    Engine<AWAITING>,
    Seq<u8>,
);

/// The handshake state after `HandshakeState::read_message` took `response`
/// in `state`; `None` where the response is refused.
pub uninterp spec fn read_response(state: Engine<AWAITING>, response: Seq<u8>) -> Option<
    Engine<RESPONDED>,
>;

/// What `HandshakeState::get_rs` returns in `state`: the static public key
/// that the response of the peer revealed.
pub uninterp spec fn remote_static_of(state: Engine<RESPONDED>) -> Seq<u8>;

/// What `HandshakeState::get_re` returns in `state`: the ephemeral public
/// key that the response of the peer brought.
pub uninterp spec fn remote_ephemeral_of(state: Engine<RESPONDED>) -> Seq<u8>;

/// The handshake state after `HandshakeState::set_s` set `key` in `state`.
pub uninterp spec fn keyed_with(state: Engine<RESPONDED>, key: Seq<u8>) -> Engine<KEYED>;

/// The handshake state after `HandshakeState::write_message_vec` wrote the
/// last message with `payload` in `state`, and that message.
pub uninterp spec fn last_message(state: Engine<KEYED>, payload: Seq<u8>) -> (
    Engine<FINISHED>,
    Seq<u8>,
);

/// What `HandshakeState::get_hash` returns in `state`.
pub uninterp spec fn transcript_hash(state: Engine<FINISHED>) -> Seq<u8>;

/// What `HandshakeState::get_ciphers` returns in `state`.
pub uninterp spec fn derived_ciphers(state: Engine<FINISHED>) -> (Transport, Transport);

/// What `CipherState::encrypt_ad_in_place` makes of `plaintext` under
/// `transport`, without associated data: the ciphertext and its tag.
pub uninterp spec fn sealed(transport: Transport, plaintext: Seq<u8>) -> Seq<u8>;

/// What `CipherState::decrypt_ad_in_place` makes of `message` under
/// `transport`, without associated data: the plaintext, or `None` where the
/// tag is wrong.
pub uninterp spec fn opened(transport: Transport, message: Seq<u8>) -> Option<Seq<u8>>;

/// `HandshakeState::new` with the XX pattern, as initiator, with `prologue`
/// and no keys.
#[verifier::external_body]
pub(crate) fn engine_new(prologue: &[u8]) -> (state: Engine<FRESH>)
    ensures
        state == engine_for(prologue@),
{
    Engine {
        inner: noise_protocol::HandshakeState::new(
            noise_protocol::patterns::noise_xx(),
            true,
            prologue,
            None,
            None,
            None,
            None,
        ),
    }
}

/// `HandshakeState::write_message_vec` for the first message: a fresh
/// ephemeral public key followed by `payload`, which goes in the clear
/// because no key is agreed yet. The message holds the one token that draws
/// the key, for which the crate has no error. Which key is drawn is left to
/// chance; state and message follow from it.
#[verifier::external_body]
pub(crate) fn engine_write_first(state: Engine<FRESH>, payload: &[u8]) -> (r: Result<
    (Engine<AWAITING>, Vec<u8>),
    noise_protocol::ErrorKind,
>)
    requires
        payload@.len() + 32 <= usize::MAX,
    ensures
        r is Ok,
        r->Ok_0.1@.len() == payload@.len() + 32,
        r->Ok_0.1@.skip(32) == payload@,
        exists|ephemeral: Seq<u8>| #[trigger]
            first_message(state, payload@, ephemeral) == (r->Ok_0.0, r->Ok_0.1@),
{
    let mut inner = state.inner;
    let message = inner.write_message_vec(payload).map_err(|e| e.kind())?;
    Ok((Engine { inner }, message))
}

/// `HandshakeState::get_next_message_overhead` before the response: the
/// length of a response without payload.
#[verifier::external_body]
pub(crate) fn engine_response_len(state: &Engine<AWAITING>) -> (n: usize)
    ensures
        n == 96,
{
    state.inner.get_next_message_overhead()
}

/// `Clone::clone` of the handshake state: an equal state.
#[verifier::external_body]
pub(crate) fn engine_clone(state: &Engine<AWAITING>) -> (copy: Engine<AWAITING>)
    ensures
        copy == *state,
{
    Engine { inner: state.inner.clone() }
}

/// `HandshakeState::read_message` for a response without payload.
#[verifier::external_body]
pub(crate) fn engine_read(state: Engine<AWAITING>, data: &[u8]) -> (r: Result<
    Engine<RESPONDED>,
    noise_protocol::ErrorKind,
>)
    requires
        data@.len() == 96,
    ensures
        r is Ok <==> read_response(state, data@) is Some,
        r is Ok ==> r->Ok_0 == read_response(state, data@)->Some_0,
{
    let mut inner = state.inner;
    inner.read_message(data, &mut []).map_err(|e| e.kind())?;
    Ok(Engine { inner })
}

/// `HandshakeState::get_rs`: the static public key of the peer, which the
/// response has revealed.
#[verifier::external_body]
pub(crate) fn engine_remote_static(state: &Engine<RESPONDED>) -> (key: Option<[u8; 32]>)
    ensures
        key is Some,
        key->Some_0@ == remote_static_of(*state),
{
    state.inner.get_rs()
}

/// `HandshakeState::get_re`: the ephemeral public key of the peer, which
/// the response has brought.
#[verifier::external_body]
pub(crate) fn engine_remote_ephemeral(state: &Engine<RESPONDED>) -> (key: Option<[u8; 32]>)
    ensures
        key is Some,
        key->Some_0@ == remote_ephemeral_of(*state),
{
    state.inner.get_re()
}

/// `DH::genkey` of X25519: a random private key.
#[verifier::external_body]
pub(crate) fn generate_key() -> (key: [u8; 32]) {
    *noise_rust_crypto::X25519::genkey()
}

/// `HandshakeState::set_s`: sets the local static key.
#[verifier::external_body]
pub(crate) fn engine_set_static(state: Engine<RESPONDED>, key: &[u8; 32]) -> (keyed: Engine<KEYED>)
    ensures
        keyed == keyed_with(state, key@),
{
    let mut inner = state.inner;
    inner.set_s(U8Array::from_slice(key));
    Engine { inner }
}

/// `HandshakeState::write_message_vec` for the last message: the encrypted
/// local static public key and the encrypted `payload`. A payload over
/// `MAX_PLAINTEXT_LEN` is left out: the cipher refuses it and the crate
/// panics. The key agreement over X25519 has no error.
#[verifier::external_body]
pub(crate) fn engine_write_final(state: Engine<KEYED>, payload: &[u8]) -> (r: Result<
    (Engine<FINISHED>, Vec<u8>),
    noise_protocol::ErrorKind,
>)
    requires
        payload@.len() + 64 <= usize::MAX,
        payload@.len() <= MAX_PLAINTEXT_LEN,
    ensures
        r is Ok,
        r->Ok_0.0 == last_message(state, payload@).0,
        r->Ok_0.1@ == last_message(state, payload@).1,
        r->Ok_0.1@.len() == payload@.len() + 64,
{
    let mut inner = state.inner;
    let message = inner.write_message_vec(payload).map_err(|e| e.kind())?;
    Ok((Engine { inner }, message))
}

/// `HandshakeState::completed`: true once the three messages are done.
#[verifier::external_body]
pub(crate) fn engine_completed(state: &Engine<FINISHED>) -> (done: bool)
    ensures
        done,
{
    state.inner.completed()
}

/// `HandshakeState::get_ciphers`: the cipher from initiator to responder,
/// then the one from responder to initiator, both at nonce zero.
#[verifier::external_body]
pub(crate) fn engine_ciphers(state: &Engine<FINISHED>) -> (pair: (Transport, Transport))
    ensures
        pair == derived_ciphers(*state),
        transport_counter(pair.0) == 0,
        transport_counter(pair.1) == 0,
{
    let (send, receive) = state.inner.get_ciphers();
    (Transport { inner: send }, Transport { inner: receive })
}

/// `HandshakeState::get_hash`: the transcript hash, a SHA-256 output.
#[verifier::external_body]
pub(crate) fn engine_hash(state: &Engine<FINISHED>) -> (hash: [u8; 32])
    ensures
        hash@ == transcript_hash(*state),
{
    let mut hash = [0u8; 32];
    hash.copy_from_slice(state.inner.get_hash());
    hash
}

/// The SHA-256 digest of `data`.
pub uninterp spec fn sha256(data: Seq<u8>) -> Seq<u8>;

/// `Hash::hash` of SHA-256: the digest of `data`.
#[verifier::external_body]
pub(crate) fn sha256_digest(data: &[u8]) -> (digest: [u8; 32])
    ensures
        digest@ == sha256(data@),
{
    *<noise_rust_crypto::Sha256 as noise_protocol::Hash>::hash(data)
}

/// `CipherState::get_next_n`: the nonce of the next message.
#[verifier::external_body]
pub(crate) fn transport_next_nonce(transport: &Transport) -> (n: u64)
    ensures
        n == transport_counter(*transport),
{
    transport.inner.get_next_n()
}

/// `CipherState::encrypt_ad_in_place` without associated data: encrypts the
/// first `plaintext_len` bytes in place and puts the tag behind them. A
/// plaintext over `MAX_PLAINTEXT_LEN` is left out: the cipher refuses it and
/// the crate panics.
#[verifier::external_body]
pub(crate) fn transport_encrypt(transport: &mut Transport, in_out: &mut [u8], plaintext_len: usize) -> (n:
    usize)
    requires
        plaintext_len + 16 <= old(in_out)@.len(),
        plaintext_len <= MAX_PLAINTEXT_LEN,
        transport_counter(*old(transport)) < u64::MAX,
    ensures
        n == plaintext_len + 16,
        final(in_out)@.len() == old(in_out)@.len(),
        final(in_out)@.take(n as int) == sealed(
            *old(transport),
            old(in_out)@.take(plaintext_len as int),
        ),
        final(in_out)@.skip(n as int) == old(in_out)@.skip(n as int),
        transport_counter(*final(transport)) == transport_counter(*old(transport)) + 1,
{
    transport.inner.encrypt_ad_in_place(&[], in_out, plaintext_len)
}

/// `CipherState::decrypt_ad_in_place` without associated data, over all of
/// `in_out`, whose last 16 bytes are the tag. The tag is tested first: only
/// when it is right is anything written, the plaintext over the ciphertext,
/// and only then does the nonce move on; else the cipher is as it was.
#[verifier::external_body]
pub(crate) fn transport_decrypt(transport: &mut Transport, in_out: &mut [u8]) -> (r: Result<usize, ()>)
    requires
        old(in_out)@.len() >= 16,
        transport_counter(*old(transport)) < u64::MAX,
    ensures
        final(in_out)@.len() == old(in_out)@.len(),
        r is Ok <==> opened(*old(transport), old(in_out)@) is Some,
        r is Ok ==> r->Ok_0 == old(in_out)@.len() - 16 && final(in_out)@.take(r->Ok_0 as int)
            == opened(*old(transport), old(in_out)@)->Some_0 && final(in_out)@.skip(r->Ok_0 as int)
            == old(in_out)@.skip(r->Ok_0 as int) && transport_counter(*final(transport))
            == transport_counter(*old(transport)) + 1,
        r is Err ==> final(in_out)@ == old(in_out)@ && *final(transport) == *old(transport),
{
    let len = in_out.len();
    transport.inner.decrypt_ad_in_place(&[], in_out, len)
}

} // verus!
