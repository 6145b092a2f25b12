use noise_protocol::patterns::noise_xx;
use noise_protocol::{CipherState, HandshakeState, DH};
use noise_rust_crypto::{Aes256Gcm, Sha256, X25519};
use trezor_thp::alternating_bit::SyncBits;
use trezor_thp::channel::{parse_allocation_response, ChannelState, DeviceState};
use trezor_thp::control_byte::{HandshakeMessage, MessageKind};
use trezor_thp::error::{Error, TransportError};
use trezor_thp::fragment::{Fragmenter, Reassembler};
use trezor_thp::header::Header;
use trezor_thp::noise::Backend;
use trezor_thp::{Device, Host, Role};

struct Fixed;

impl Backend for Fixed {
    fn random_bytes(dest: &mut [u8]) {
        dest.fill(42)
    }
}

type Channel = ChannelState<Host, Fixed>;

const PACKET_LEN: usize = 64;
const NONCE: [u8; 8] = [42; 8];

fn bits(seq_bit: bool, ack_bit: bool) -> SyncBits {
    SyncBits { seq_bit, ack_bit }
}

fn header_of(kind: MessageKind, channel_id: u16) -> Header {
    Header { kind, channel_id, sync: SyncBits::new(), length: 4 }
}

/// The datagrams of one message.
fn datagrams(header: Header, sync: SyncBits, payload: &[u8]) -> Vec<Vec<u8>> {
    let mut fragmenter = Fragmenter::new(header, sync, payload).unwrap();
    let mut out = Vec::new();
    while !fragmenter.is_done() {
        let mut datagram = vec![0u8; PACKET_LEN];
        fragmenter.next(payload, &mut datagram).unwrap();
        out.push(datagram);
    }
    out
}

/// Everything that the channel has to send now.
fn drain(channel: &mut Channel) -> Vec<Vec<u8>> {
    let mut out = Vec::new();
    loop {
        let mut datagram = vec![0u8; PACKET_LEN];
        if !channel.data_out(&mut datagram).unwrap() {
            return out;
        }
        out.push(datagram);
    }
}

/// Feeds the datagrams of one message; the result of the last one.
fn feed(channel: &mut Channel, message: &[Vec<u8>]) -> Result<bool, Error> {
    let (last, rest) = message.split_last().unwrap();
    for datagram in rest {
        assert_eq!(channel.data_in(datagram), Ok(true));
    }
    channel.data_in(last)
}

/// Header and payload of the message that the datagrams carry.
fn collect(message: &[Vec<u8>]) -> (Header, Vec<u8>) {
    let mut buffer = vec![0u8; 256];
    let mut reassembler = Reassembler::new(&message[0], &mut buffer).unwrap();
    for datagram in &message[1..] {
        reassembler.update(datagram, &mut buffer).unwrap();
    }
    assert!(reassembler.is_done());
    let len = reassembler.verify(&buffer).unwrap();
    buffer.truncate(len);
    (reassembler.header(), buffer)
}

fn allocation_response(nonce: &[u8], channel_id: u16, properties: &[u8]) -> Vec<Vec<u8>> {
    let mut payload = nonce.to_vec();
    payload.extend_from_slice(&channel_id.to_be_bytes());
    payload.extend_from_slice(properties);
    datagrams(header_of(MessageKind::ChannelAllocationResponse, 0xffff), SyncBits::new(), &payload)
}

fn ack(channel_id: u16, ack_bit: bool) -> Vec<u8> {
    let mut datagram = vec![0u8; PACKET_LEN];
    Fragmenter::single(Header::new_ack(channel_id), bits(false, ack_bit), &[], &mut datagram).unwrap();
    datagram
}

/// A channel that has sent its allocation request.
fn requested() -> Channel {
    let mut channel = Channel::new(0);
    channel.allocate(false).unwrap();
    assert_eq!(drain(&mut channel).len(), 1);
    channel
}

/// A channel with the id 0x1234 that has sent its first handshake message,
/// which comes back with it.
fn allocated(properties: &[u8]) -> (Channel, Vec<u8>) {
    let mut channel = requested();
    assert_eq!(feed(&mut channel, &allocation_response(&NONCE, 0x1234, properties)), Ok(false));
    let sent = drain(&mut channel);
    let (header, payload) = collect(&sent);
    assert_eq!(header.kind, MessageKind::Handshake(HandshakeMessage::InitiationRequest));
    (channel, payload)
}

struct Peer {
    noise: HandshakeState<X25519, Aes256Gcm, Sha256>,
}

impl Peer {
    fn new(properties: &[u8]) -> Peer {
        let key = X25519::genkey();
        Peer { noise: HandshakeState::new(noise_xx(), false, properties, Some(key), None, None, None) }
    }

    fn respond(&mut self, first: &[u8]) -> Vec<Vec<u8>> {
        let mut unlock = [0u8; 1];
        self.noise.read_message(first, &mut unlock).unwrap();
        let mut response = [0u8; 96];
        self.noise.write_message(&[], &mut response).unwrap();
        datagrams(
            header_of(MessageKind::Handshake(HandshakeMessage::InitiationResponse), 0x1234),
            bits(false, false),
            &response,
        )
    }

    fn finish(&mut self, last: &[u8]) -> (CipherState<Aes256Gcm>, CipherState<Aes256Gcm>) {
        self.noise.read_message(last, &mut []).unwrap();
        assert!(self.noise.completed());
        self.noise.get_ciphers()
    }
}

/// A channel that has sent its last handshake message, with the cipher
/// under which the device reports its state.
fn completed() -> (Channel, CipherState<Aes256Gcm>) {
    let (mut channel, first) = allocated(b"props");
    let mut peer = Peer::new(b"props");
    let response = peer.respond(&first);
    assert_eq!(channel.data_in(&ack(0x1234, false)), Ok(true));
    assert_eq!(feed(&mut channel, &response), Ok(false));
    assert_eq!(channel.state(), Host::Handshake2);
    let sent = drain(&mut channel);
    // the acknowledgment of the response goes first
    let (first_header, _) = collect(&sent[..1]);
    assert!(first_header.is_ack());
    assert_eq!(first_header.sync, bits(false, false));
    let (header, last) = collect(&sent[1..]);
    assert_eq!(header.kind, MessageKind::Handshake(HandshakeMessage::CompletionRequest));
    assert_eq!(header.sync, bits(true, false));
    assert_eq!(header.channel_id, 0x1234);
    assert_eq!(last.len(), 64);
    let (_, from_device) = peer.finish(&last);
    assert_eq!(channel.data_in(&ack(0x1234, true)), Ok(true));
    (channel, from_device)
}

fn report(cipher: &mut CipherState<Aes256Gcm>, plaintext: &[u8]) -> Vec<Vec<u8>> {
    let mut encrypted = vec![0u8; plaintext.len() + 16];
    cipher.encrypt(plaintext, &mut encrypted);
    datagrams(
        header_of(MessageKind::Handshake(HandshakeMessage::CompletionResponse), 0x1234),
        bits(true, false),
        &encrypted,
    )
}

#[test]
fn roles() {
    assert!(Host::is_host());
    assert!(!Device::is_host());
    assert_eq!(Host::default(), Host::Unallocated);
    assert_eq!(Device::default(), Device::Unallocated);
}

#[test]
fn device_state_from_bytes() {
    assert_eq!(DeviceState::from(&[0]), Some(DeviceState::Unpaired));
    assert_eq!(DeviceState::from(&[1]), Some(DeviceState::Paired));
    assert_eq!(DeviceState::from(&[2]), Some(DeviceState::PairedAutoconnect));
    assert_eq!(DeviceState::from(&[3]), None);
    assert_eq!(DeviceState::from(&[]), None);
    assert_eq!(DeviceState::from(&[1, 0]), None);
    assert_eq!(DeviceState::Unpaired.host_state(), Host::Pairing0);
    assert_eq!(DeviceState::Paired.host_state(), Host::EncryptedTransport);
    assert_eq!(DeviceState::PairedAutoconnect.host_state(), Host::EncryptedTransport);
}

#[test]
fn allocation_response_is_nonce_id_and_properties() {
    let payload = [42, 42, 42, 42, 42, 42, 42, 42, 0x12, 0x34, 9, 8, 7];
    let (channel_id, properties) = parse_allocation_response(&payload, &NONCE).unwrap();
    assert_eq!(channel_id, 0x1234);
    assert_eq!(properties, &[9, 8, 7]);
    let (_, none) = parse_allocation_response(&payload[..10], &NONCE).unwrap();
    assert!(none.is_empty());
    assert_eq!(parse_allocation_response(&payload[..9], &NONCE), Err(Error::MalformedData));
    assert_eq!(parse_allocation_response(&payload[..7], &NONCE), Err(Error::MalformedData));
    assert_eq!(parse_allocation_response(&payload, &[41; 8]), Err(Error::MalformedData));
    let mut last_differs = NONCE;
    last_differs[7] = 0;
    assert_eq!(parse_allocation_response(&payload, &last_differs), Err(Error::MalformedData));
}

#[test]
fn new_channel_is_unallocated_and_idle() {
    let mut channel = Channel::new(1337);
    assert_eq!(channel.channel_id(), 1337);
    assert_eq!(channel.state(), Host::Unallocated);
    assert!(!channel.handshake_done());
    assert_eq!(channel.peer_error(), None);
    let mut datagram = [0u8; PACKET_LEN];
    assert_eq!(channel.data_out(&mut datagram), Err(Error::UnexpectedInput));
}

#[test]
fn allocate_emits_the_request_with_the_nonce() {
    let mut channel = Channel::new(0);
    assert_eq!(channel.allocate(false), Ok(()));
    assert_eq!(channel.state(), Host::Handshake0);
    let mut datagram = [0xeeu8; PACKET_LEN];
    assert_eq!(channel.data_out(&mut datagram), Ok(true));
    assert_eq!(&datagram[..5], &[0x40, 0xff, 0xff, 0x00, 0x0c]);
    assert_eq!(&datagram[5..13], &NONCE);
    assert!(datagram[17..].iter().all(|b| *b == 0));
    let (header, payload) = collect(&[datagram.to_vec()]);
    assert_eq!(header.kind, MessageKind::ChannelAllocationRequest);
    assert_eq!(payload, NONCE);
    let mut next = [0xeeu8; PACKET_LEN];
    assert_eq!(channel.data_out(&mut next), Ok(false));
    assert_eq!(next, [0xeeu8; PACKET_LEN]);
    assert_eq!(channel.data_out(&mut next), Err(Error::UnexpectedInput));
}

#[test]
fn allocate_twice_is_unexpected() {
    let mut channel = Channel::new(0);
    channel.allocate(true).unwrap();
    assert_eq!(channel.allocate(true), Err(Error::UnexpectedInput));
    assert_eq!(channel.state(), Host::Handshake0);
    assert_eq!(drain(&mut channel).len(), 1);
}

#[test]
fn data_out_needs_room() {
    let mut channel = Channel::new(0);
    channel.allocate(false).unwrap();
    let mut small = [1u8; 5];
    assert_eq!(channel.data_out(&mut small), Err(Error::InsufficientBuffer));
    assert_eq!(small, [1u8; 5]);
    // nothing was lost: the request still comes whole
    let (_, payload) = collect(&drain(&mut channel));
    assert_eq!(payload, NONCE);
}

#[test]
fn allocation_response_drives_to_handshake1() {
    let mut channel = requested();
    let response = allocation_response(&NONCE, 0x1234, b"device properties");
    assert_eq!(feed(&mut channel, &response), Ok(false));
    assert_eq!(channel.state(), Host::Handshake1);
    assert_eq!(channel.channel_id(), 0x1234);
    assert!(!channel.handshake_done());
    // the first handshake message is queued: an ephemeral key and the unlock byte
    let sent = drain(&mut channel);
    assert_eq!(sent.len(), 1);
    let (header, payload) = collect(&sent);
    assert_eq!(header.kind, MessageKind::Handshake(HandshakeMessage::InitiationRequest));
    assert_eq!(header.channel_id, 0x1234);
    assert_eq!(header.sync, bits(false, false));
    assert_eq!(payload.len(), 33);
    assert_eq!(payload[32], 0);
    let mut peer = HandshakeState::<X25519, Aes256Gcm, Sha256>::new(
        noise_xx(),
        false,
        &b"device properties"[..],
        Some(X25519::genkey()),
        None,
        None,
        None,
    );
    peer.read_message(&payload, &mut [0u8; 1]).unwrap();
}

#[test]
fn unlock_intent_travels_in_first_handshake_message() {
    let mut channel = Channel::new(0);
    channel.allocate(true).unwrap();
    drain(&mut channel);
    feed(&mut channel, &allocation_response(&NONCE, 1, b"")).unwrap();
    let (_, payload) = collect(&drain(&mut channel));
    assert_eq!(payload[32], 1);
}

#[test]
fn wrong_nonce_is_malformed() {
    let mut channel = requested();
    let response = allocation_response(&[41; 8], 0x1234, b"props");
    assert_eq!(feed(&mut channel, &response), Err(Error::MalformedData));
    assert_eq!(channel.state(), Host::Handshake0);
    assert_eq!(channel.channel_id(), 0);
    let mut datagram = [0u8; PACKET_LEN];
    assert_eq!(channel.data_out(&mut datagram), Err(Error::UnexpectedInput));
    // the allocation is still open: the true response is taken
    assert_eq!(feed(&mut channel, &allocation_response(&NONCE, 0x1234, b"props")), Ok(false));
    assert_eq!(channel.state(), Host::Handshake1);
}

#[test]
fn truncated_allocation_response_is_malformed() {
    let mut channel = requested();
    let short = datagrams(
        header_of(MessageKind::ChannelAllocationResponse, 0xffff),
        SyncBits::new(),
        &[42, 42, 42, 42, 42, 42, 42, 42, 0x12],
    );
    assert_eq!(feed(&mut channel, &short), Err(Error::MalformedData));
    assert_eq!(channel.state(), Host::Handshake0);
}

#[test]
fn long_device_properties_are_refused() {
    let mut channel = requested();
    assert_eq!(
        feed(&mut channel, &allocation_response(&NONCE, 0x1234, &[1u8; 65])),
        Err(Error::InsufficientBuffer)
    );
    assert_eq!(channel.state(), Host::Handshake0);
    let mut channel = requested();
    assert_eq!(feed(&mut channel, &allocation_response(&NONCE, 0x1234, &[1u8; 64])), Ok(false));
    assert_eq!(channel.state(), Host::Handshake1);
}

#[test]
fn corrupted_message_is_an_invalid_digest() {
    let mut channel = requested();
    let mut response = allocation_response(&NONCE, 0x1234, b"props");
    response[0][16] ^= 1;
    assert_eq!(feed(&mut channel, &response), Err(Error::InvalidDigest));
    assert_eq!(channel.state(), Host::Handshake0);
}

#[test]
fn message_too_long_for_the_buffer_is_refused() {
    let mut channel = requested();
    let response = allocation_response(&NONCE, 0x1234, &[0u8; 115]);
    assert_eq!(channel.data_in(&response[0]), Err(Error::InsufficientBuffer));
    // its continuations are passed over
    assert_eq!(channel.data_in(&response[1]), Ok(true));
    assert_eq!(channel.state(), Host::Handshake0);
}

#[test]
fn short_datagram_is_malformed() {
    let mut channel = requested();
    assert_eq!(channel.data_in(&[]), Err(Error::MalformedData));
    assert_eq!(channel.data_in(&[0x41, 0xff]), Err(Error::MalformedData));
    assert_eq!(channel.data_in(&[0x41, 0xff, 0xff, 0x00]), Err(Error::MalformedData));
    assert_eq!(channel.state(), Host::Handshake0);
}

#[test]
fn continuation_while_idle_is_ignored() {
    let mut channel = Channel::new(0);
    assert_eq!(channel.data_in(&[0x80, 0x12, 0x34, 1, 2, 3]), Ok(true));
    assert_eq!(channel.data_in(&[0x80]), Ok(true));
    assert_eq!(channel.state(), Host::Unallocated);
    let mut channel = requested();
    assert_eq!(channel.data_in(&[0x80, 0xff, 0xff, 1, 2, 3]), Ok(true));
    assert_eq!(channel.state(), Host::Handshake0);
    assert_eq!(feed(&mut channel, &allocation_response(&NONCE, 0x1234, b"props")), Ok(false));
}

#[test]
fn data_in_while_sending_is_unexpected() {
    let mut channel = Channel::new(0);
    channel.allocate(false).unwrap();
    let response = allocation_response(&NONCE, 0x1234, b"props");
    assert_eq!(channel.data_in(&response[0]), Err(Error::UnexpectedInput));
    assert_eq!(channel.data_in(&[0x80, 0, 0]), Err(Error::UnexpectedInput));
    // the request is still to be sent
    assert_eq!(drain(&mut channel).len(), 1);
}

#[test]
fn handshake_steps_out_of_state_are_unexpected() {
    let mut channel = Channel::new(0);
    assert_eq!(channel.continue_handshake(), Err(Error::UnexpectedInput));
    assert_eq!(channel.finish_handshake().err(), Some(Error::UnexpectedInput));
    assert_eq!(channel.start_handshake(b"props"), Ok(()));
    assert_eq!(channel.start_handshake(b"props"), Err(Error::UnexpectedInput));
    assert_eq!(channel.finish_handshake().err(), Some(Error::UnexpectedInput));
    let (mut done, _) = completed();
    assert_eq!(done.start_handshake(b"props"), Err(Error::UnexpectedInput));
    assert_eq!(done.continue_handshake(), Err(Error::UnexpectedInput));
}

#[test]
fn start_handshake_queues_the_first_message() {
    let mut channel = Channel::new(7);
    assert_eq!(channel.start_handshake(b"props"), Ok(()));
    let (header, payload) = collect(&drain(&mut channel));
    assert_eq!(header.kind, MessageKind::Handshake(HandshakeMessage::InitiationRequest));
    assert_eq!(header.channel_id, 7);
    assert_eq!(payload.len(), 33);
}

#[test]
fn duplicate_message_is_dropped() {
    let (mut channel, first) = allocated(b"props");
    let mut peer = Peer::new(b"props");
    let response = peer.respond(&first);
    assert_eq!(response.len(), 2);
    assert_eq!(channel.data_in(&ack(0x1234, false)), Ok(true));
    assert_eq!(feed(&mut channel, &response), Ok(false));
    assert_eq!(channel.state(), Host::Handshake2);
    let sent = drain(&mut channel);
    assert_eq!(sent.len(), 3);
    // the same message again: dropped with its continuation, nothing is sent
    assert_eq!(channel.data_in(&response[0]), Ok(true));
    assert_eq!(channel.data_in(&response[1]), Ok(true));
    assert_eq!(channel.state(), Host::Handshake2);
    let mut datagram = [0u8; PACKET_LEN];
    assert_eq!(channel.data_out(&mut datagram), Err(Error::UnexpectedInput));
}

#[test]
fn message_with_the_wrong_bit_is_dropped() {
    let (mut channel, first) = allocated(b"props");
    let mut peer = Peer::new(b"props");
    let mut response = peer.respond(&first);
    assert_eq!(channel.data_in(&ack(0x1234, false)), Ok(true));
    let good = response[0][0];
    response[0][0] = good | 0x10;
    assert_eq!(channel.data_in(&response[0]), Ok(true));
    assert_eq!(channel.data_in(&response[1]), Ok(true));
    assert_eq!(channel.state(), Host::Handshake1);
    response[0][0] = good;
    assert_eq!(feed(&mut channel, &response), Ok(false));
    assert_eq!(channel.state(), Host::Handshake2);
}

#[test]
fn handshake_response_of_wrong_length_is_malformed() {
    let (mut channel, _) = allocated(b"props");
    assert_eq!(channel.data_in(&ack(0x1234, false)), Ok(true));
    let response = datagrams(
        header_of(MessageKind::Handshake(HandshakeMessage::InitiationResponse), 0x1234),
        bits(false, false),
        &[0u8; 95],
    );
    assert_eq!(feed(&mut channel, &response), Err(Error::MalformedData));
    assert_eq!(channel.state(), Host::Handshake1);
}

#[test]
fn forged_handshake_response_fails_the_handshake() {
    let (mut channel, _) = allocated(b"props");
    assert_eq!(channel.data_in(&ack(0x1234, false)), Ok(true));
    let response = datagrams(
        header_of(MessageKind::Handshake(HandshakeMessage::InitiationResponse), 0x1234),
        bits(false, false),
        &[0u8; 96],
    );
    assert_eq!(feed(&mut channel, &response), Err(Error::HandshakeFailed));
    assert_eq!(channel.state(), Host::Handshake1);
}

#[test]
fn handshake_response_before_the_ack_is_unexpected() {
    let (mut channel, first) = allocated(b"props");
    let mut peer = Peer::new(b"props");
    let response = peer.respond(&first);
    assert_eq!(feed(&mut channel, &response), Err(Error::UnexpectedInput));
    assert_eq!(channel.state(), Host::Handshake1);
}

#[test]
fn mismatched_ack_leaves_the_message_unacknowledged() {
    let (mut channel, first) = allocated(b"props");
    let mut peer = Peer::new(b"props");
    let response = peer.respond(&first);
    assert_eq!(channel.data_in(&ack(0x1234, true)), Ok(true));
    assert_eq!(feed(&mut channel, &response), Err(Error::UnexpectedInput));
    assert_eq!(channel.state(), Host::Handshake1);
}

#[test]
fn paired_device_goes_to_encrypted_transport() {
    let (mut channel, mut from_device) = completed();
    assert!(!channel.handshake_done());
    assert_eq!(feed(&mut channel, &report(&mut from_device, &[1])), Ok(false));
    assert_eq!(channel.state(), Host::EncryptedTransport);
    assert!(channel.handshake_done());
    // the report is acknowledged with its bit
    let sent = drain_ack(&mut channel);
    let (header, _) = collect(&[sent]);
    assert!(header.is_ack());
    assert_eq!(header.sync, bits(false, true));
    assert_eq!(header.channel_id, 0x1234);
}

fn drain_ack(channel: &mut Channel) -> Vec<u8> {
    let mut datagram = vec![0xeeu8; PACKET_LEN];
    assert_eq!(channel.data_out(&mut datagram), Ok(true));
    let mut next = [0u8; PACKET_LEN];
    assert_eq!(channel.data_out(&mut next), Err(Error::UnexpectedInput));
    datagram
}

#[test]
fn autoconnect_device_goes_to_encrypted_transport() {
    let (mut channel, mut from_device) = completed();
    assert_eq!(feed(&mut channel, &report(&mut from_device, &[2])), Ok(false));
    assert_eq!(channel.state(), Host::EncryptedTransport);
}

#[test]
fn unpaired_device_goes_to_pairing() {
    let (mut channel, mut from_device) = completed();
    assert_eq!(feed(&mut channel, &report(&mut from_device, &[0])), Ok(false));
    assert_eq!(channel.state(), Host::Pairing0);
    assert!(channel.handshake_done());
}

#[test]
fn unknown_device_state_is_malformed() {
    let (mut channel, mut from_device) = completed();
    assert_eq!(feed(&mut channel, &report(&mut from_device, &[3])), Err(Error::MalformedData));
    assert_eq!(channel.state(), Host::Handshake2);
    let (mut channel, mut from_device) = completed();
    assert_eq!(feed(&mut channel, &report(&mut from_device, &[1, 1])), Err(Error::MalformedData));
    assert_eq!(channel.state(), Host::Handshake2);
}

#[test]
fn forged_report_is_an_invalid_digest() {
    let (mut channel, _) = completed();
    let forged = datagrams(
        header_of(MessageKind::Handshake(HandshakeMessage::CompletionResponse), 0x1234),
        bits(true, false),
        &[0u8; 17],
    );
    assert_eq!(feed(&mut channel, &forged), Err(Error::InvalidDigest));
    assert_eq!(channel.state(), Host::Handshake2);
}

#[test]
fn report_without_tag_is_malformed() {
    let (mut channel, _) = completed();
    let short = datagrams(
        header_of(MessageKind::Handshake(HandshakeMessage::CompletionResponse), 0x1234),
        bits(true, false),
        &[0u8; 15],
    );
    assert_eq!(feed(&mut channel, &short), Err(Error::MalformedData));
}

#[test]
fn message_in_encrypted_transport_is_unexpected() {
    let (mut channel, mut from_device) = completed();
    feed(&mut channel, &report(&mut from_device, &[1])).unwrap();
    drain_ack(&mut channel);
    let message = datagrams(Header::new_data(0x1234), bits(false, false), &[0u8; 20]);
    assert_eq!(feed(&mut channel, &message), Err(Error::UnexpectedInput));
    assert_eq!(channel.state(), Host::EncryptedTransport);
}

#[test]
fn message_while_pairing_is_unexpected() {
    let (mut channel, mut from_device) = completed();
    feed(&mut channel, &report(&mut from_device, &[0])).unwrap();
    drain_ack(&mut channel);
    let message = datagrams(Header::new_data(0x1234), bits(false, false), &[0u8; 20]);
    assert_eq!(feed(&mut channel, &message), Err(Error::UnexpectedInput));
    assert_eq!(channel.state(), Host::Pairing0);
}

#[test]
fn error_datagram_is_surfaced() {
    let mut channel = requested();
    let busy = datagrams(Header::new_error(0xffff), SyncBits::new(), &[1]);
    assert_eq!(feed(&mut channel, &busy), Ok(false));
    assert_eq!(channel.peer_error(), Some(TransportError::TransportBusy));
    assert_eq!(channel.state(), Host::Handshake0);
    let (mut channel, _) = allocated(b"props");
    assert_eq!(channel.data_in(&ack(0x1234, false)), Ok(true));
    let locked = datagrams(Header::new_error(0x1234), bits(false, false), &[5]);
    assert_eq!(feed(&mut channel, &locked), Ok(false));
    assert_eq!(channel.peer_error(), Some(TransportError::DeviceLocked));
    assert_eq!(channel.state(), Host::Handshake1);
}

#[test]
fn error_datagram_without_known_code_is_malformed() {
    let mut channel = requested();
    let unknown = datagrams(Header::new_error(0xffff), SyncBits::new(), &[9]);
    assert_eq!(feed(&mut channel, &unknown), Err(Error::MalformedData));
    let empty = datagrams(Header::new_error(0xffff), SyncBits::new(), &[]);
    assert_eq!(feed(&mut channel, &empty), Err(Error::MalformedData));
    assert_eq!(channel.peer_error(), None);
}

#[test]
fn acknowledgment_is_sent_before_the_next_message() {
    let (mut channel, first) = allocated(b"props");
    let mut peer = Peer::new(b"props");
    let response = peer.respond(&first);
    channel.data_in(&ack(0x1234, false)).unwrap();
    feed(&mut channel, &response).unwrap();
    let mut small = [0u8; 8];
    assert_eq!(channel.data_out(&mut small), Err(Error::InsufficientBuffer));
    let mut datagram = [0u8; 9];
    assert_eq!(channel.data_out(&mut datagram), Ok(true));
    assert_eq!(&datagram[..5], &[0x20, 0x12, 0x34, 0x00, 0x04]);
    let mut next = [0u8; PACKET_LEN];
    assert_eq!(channel.data_out(&mut next), Ok(true));
    assert_eq!(&next[..5], &[0x12, 0x12, 0x34, 0x00, 0x44]);
}

#[test]
fn wrong_length_comes_before_the_unacknowledged_message() {
    // the first handshake message is still unacknowledged
    let (mut channel, _) = allocated(b"props");
    let response = datagrams(
        header_of(MessageKind::Handshake(HandshakeMessage::InitiationResponse), 0x1234),
        bits(false, false),
        &[0u8; 95],
    );
    assert_eq!(feed(&mut channel, &response), Err(Error::MalformedData));
    assert_eq!(channel.state(), Host::Handshake1);
    let long = datagrams(
        header_of(MessageKind::Handshake(HandshakeMessage::InitiationResponse), 0x1234),
        bits(true, false),
        &[0u8; 97],
    );
    assert_eq!(feed(&mut channel, &long), Err(Error::MalformedData));
    assert_eq!(channel.state(), Host::Handshake1);
}

#[test]
fn start_handshake_with_a_message_in_flight_is_unexpected() {
    let (mut channel, _) = allocated(b"props");
    assert_eq!(channel.start_handshake(b"props"), Err(Error::UnexpectedInput));
    assert_eq!(channel.state(), Host::Handshake1);
}
