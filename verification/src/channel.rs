//! The state machine of a channel.
//!
//! The owner of the transport pumps a channel: `data_out` fills the next
//! datagram to send, `data_in` takes a received one. Every step of the
//! protocol happens inside these calls and `allocate`.

use vstd::prelude::*;
use core::marker::PhantomData;
use crate::alternating_bit::{ChannelSync, SyncBits};
use crate::buffer::{
    buffer_as_mut_slice, buffer_as_slice, buffer_bytes, buffer_clone, buffer_new, buffer_resize,
    buffer_truncate, repeated, zero_buffer,
};
use crate::control_byte::{kind_of_byte, ControlByte, HandshakeMessage, MessageKind};
use crate::crc32::crc32;
use crate::error::{Error, TransportError};
use crate::fragment::{
    chunk_len, first_outcome, fragment_at, message_stream, next_outcome, verify_outcome, Fragmenter,
    Reassembler,
};
use crate::header::{
    be16, high_byte, low_byte, parse_u16, Header, BROADCAST_CHANNEL_ID, NONCE_LEN,
};
use crate::engine::{engine_for, first_message, opened, read_response};
use crate::noise::{deliver, pairing_completed, unlock_payload, Backend, NoiseState};
use crate::{Host, Role};

verus! {

/// The longest device properties that a channel takes from an allocation response.
pub const MAX_DEVICE_PROPERTIES_LEN: usize = 64;

/// What the device reports of its pairing when the handshake is complete.
#[derive(Clone, Copy, Debug, PartialEq, Eq, Structural)]
pub enum DeviceState {
    Unpaired,
    Paired,
    PairedAutoconnect,
}

impl DeviceState {
    /// The state that a decrypted report spells: one byte, 0, 1 or 2.
    pub open spec fn decode(bytes: Seq<u8>) -> Option<DeviceState> {
        if bytes.len() != 1 {
            None
        } else if bytes[0] == 0 {
            Some(DeviceState::Unpaired)
        } else if bytes[0] == 1 {
            Some(DeviceState::Paired)
        } else if bytes[0] == 2 {
            Some(DeviceState::PairedAutoconnect)
        } else {
            None
        }
    }

    /// The protocol state of the host once the device has reported this.
    pub open spec fn next_host_state(self) -> Host {
        match self {
            DeviceState::Unpaired => Host::Pairing0,
            _ => Host::EncryptedTransport,
        }
    }

    /// Reads the report of the device.
    pub fn from(bytes: &[u8]) -> (r: Option<Self>)
        ensures
            r == Self::decode(bytes@),
    {
        if bytes.len() != 1 {
            return None;
        }
        match bytes[0] {
            0 => Some(DeviceState::Unpaired),
            1 => Some(DeviceState::Paired),
            2 => Some(DeviceState::PairedAutoconnect),
            _ => None,
        }
    }

    /// The protocol state of the host once the device has reported this: a
    /// paired device goes on to encrypted transport, an unpaired one to pairing.
    pub fn host_state(self) -> (r: Host)
        ensures
            r == self.next_host_state(),
    {
        match self {
            DeviceState::Unpaired => Host::Pairing0,
            _ => Host::EncryptedTransport,
        }
    }
}

/// What the scratch buffer of a channel is in use for.
#[derive(Clone, Copy, Debug)]
pub enum PacketState {
    Idle,
    /// The buffer holds the payload of a message that is being handed out.
    Sending(Fragmenter),
    /// The buffer takes up a message that is being received.
    Receiving(Reassembler),
}

/// Whether the host has been given a channel id in `state`.
pub open spec fn host_has_cid(state: Host) -> bool {
    state != Host::Unallocated && state != Host::Handshake0
}

/// Whether the handshake lies behind the host in `state`.
pub open spec fn host_handshake_done(state: Host) -> bool {
    state != Host::Unallocated && state != Host::Handshake0 && state != Host::Handshake1 && state
        != Host::Handshake2
}

/// What an allocation response tells a host that asked with `nonce`: the
/// channel id and the device properties. A response that is too short, or
/// does not start with the nonce, is malformed.
pub open spec fn allocation_response(payload: Seq<u8>, nonce: Seq<u8>) -> Result<(u16, Seq<u8>), Error> {
    if payload.len() < 8 || payload.take(8) != nonce || payload.len() < 10 {
        Err(Error::MalformedData)
    } else {
        Ok((be16(payload[8], payload[9]), payload.skip(10)))
    }
}

/// Reads an allocation response: checks that it echoes `nonce`, and returns
/// the channel id with the device properties that follow it.
pub fn parse_allocation_response<'a>(payload: &'a [u8], nonce: &[u8; 8]) -> (r: Result<
    (u16, &'a [u8]),
    Error,
>)
    ensures
        match allocation_response(payload@, nonce@) {
            Ok((channel_id, properties)) => r is Ok && r->Ok_0.0 == channel_id && r->Ok_0.1@
                == properties,
            Err(e) => r is Err && r->Err_0 == e,
        },
{
    if payload.len() < NONCE_LEN {
        return Err(Error::MalformedData);
    }
    let mut i: usize = 0;
    while i < NONCE_LEN
        invariant
            i <= 8,
            payload@.len() >= 8,
            forall|j: int| 0 <= j < i ==> payload@[j] == nonce@[j],
        decreases 8 - i,
    {
        if payload[i] != nonce[i] {
            assert(payload@.take(8)[i as int] != nonce@[i as int]);
            return Err(Error::MalformedData);
        }
        i += 1;
    }
    assert(payload@.take(8) =~= nonce@);
    let rest = vstd::slice::slice_subrange(payload, NONCE_LEN, payload.len());
    match parse_u16(rest) {
        Ok((channel_id, properties)) => {
            assert(properties@ =~= payload@.skip(10));
            Ok((channel_id, properties))
        },
        Err(e) => Err(e),
    }
}

/// The buffer in use for handing out the message of `kind` that holds
/// `payload`, stamped with `bits`, of which nothing is out yet.
pub open spec fn queued(kind: MessageKind, channel_id: u16, bits: SyncBits, payload: Seq<u8>)
    -> PacketState {
    let header = Header::blank(kind, channel_id).stamped(bits, payload.len());
    PacketState::Sending(Fragmenter::at(header, crc32(header.bytes() + payload), 0))
}

/// The state of one channel.
pub struct ChannelState<R: Role, B: Backend> {
    channel_id: u16,
    state: R,
    sync: ChannelSync,
    noise_state: NoiseState<R>,
    send_ack: Option<SyncBits>,
    internal_buffer: heapless::Vec<u8, 128>,
    alloc_nonce: [u8; 8],
    packet_state: PacketState,
    try_to_unlock: bool,
    peer_error: Option<TransportError>,
    _backend: PhantomData<B>,
}

/// A channel as contracts see it.
pub struct ChannelView<R: Role> {
    /// The id that the device gave the channel, once it has one.
    pub channel_id: u16,
    /// The state of the protocol.
    pub state: R,
    pub sync: ChannelSync,
    pub noise: NoiseState<R>,
    /// The bits of an acknowledgment that is still to be sent.
    pub pending_ack: Option<SyncBits>,
    /// Contents of the scratch buffer.
    pub buffer: Seq<u8>,
    /// The nonce of the allocation request.
    pub nonce: Seq<u8>,
    pub packet: PacketState,
    pub try_to_unlock: bool,
    /// The last error that the peer reported.
    pub peer_error: Option<TransportError>,
}

impl<R: Role, B: Backend> View for ChannelState<R, B> {
    type V = ChannelView<R>;

    closed spec fn view(&self) -> ChannelView<R> {
        ChannelView {
            channel_id: self.channel_id,
            state: self.state,
            sync: self.sync,
            noise: self.noise_state,
            pending_ack: self.send_ack,
            buffer: buffer_bytes(self.internal_buffer),
            nonce: self.alloc_nonce@,
            packet: self.packet_state,
            try_to_unlock: self.try_to_unlock,
            peer_error: self.peer_error,
        }
    }
}

impl<R: Role> ChannelView<R> {
    /// The buffer fits what it is in use for: it holds the payload that a
    /// fragmenter announces, and is filled up to its capacity under a reassembler.
    pub open spec fn well_formed(self) -> bool {
        &&& self.buffer.len() <= 128
        &&& self.nonce.len() == 8
        &&& match self.packet {
            PacketState::Idle => true,
            PacketState::Sending(f) => f.header_of().length == self.buffer.len() + 4,
            PacketState::Receiving(r) => self.buffer.len() == 128 && r.header_of().length <= 128,
        }
    }
}

impl<R: Role, B: Backend> ChannelState<R, B> {
    /// A channel in the first state of its role, with nothing in flight.
    pub fn new(channel_id: u16) -> (r: Self)
        ensures
            r@.channel_id == channel_id,
            call_ensures(R::default, (), r@.state),
            r@.sync == ChannelSync::initial(),
            r@.noise is Initial,
            r@.pending_ack is None,
            r@.buffer == Seq::<u8>::empty(),
            r@.nonce == repeated(0, 8),
            r@.packet is Idle,
            !r@.try_to_unlock,
            r@.peer_error is None,
            r@.well_formed(),
    {
        let alloc_nonce = [0u8; 8];
        assert(alloc_nonce@ =~= repeated(0, 8));
        ChannelState {
            channel_id,
            state: R::default(),
            sync: ChannelSync::new(),
            noise_state: NoiseState::Initial,
            send_ack: None,
            internal_buffer: buffer_new(),
            alloc_nonce,
            packet_state: PacketState::Idle,
            try_to_unlock: false,
            peer_error: None,
            _backend: PhantomData,
        }
    }

    /// The last error that the peer reported in an error datagram.
    pub fn peer_error(&self) -> (r: Option<TransportError>)
        ensures
            r == self@.peer_error,
    {
        self.peer_error
    }

    /// The id of the channel.
    pub fn channel_id(&self) -> (r: u16)
        ensures
            r == self@.channel_id,
    {
        self.channel_id
    }
}

impl<B: Backend> ChannelState<Host, B> {
    /// Asks the device for a channel: draws a fresh nonce and queues the
    /// allocation request that carries it. Anywhere but in the unallocated
    /// state the call is unexpected and changes nothing.
    pub fn allocate(&mut self, try_to_unlock: bool) -> (r: Result<(), Error>)
        requires
            old(self)@.well_formed(),
        ensures
            final(self)@.well_formed(),
            old(self)@.state != Host::Unallocated ==> r == Err::<(), Error>(Error::UnexpectedInput)
                && final(self)@ == old(self)@,
            old(self)@.state == Host::Unallocated ==> r == Ok::<(), Error>(()) && final(self)@
                == (ChannelView {
                state: Host::Handshake0,
                try_to_unlock,
                buffer: final(self)@.nonce,
                nonce: final(self)@.nonce,
                packet: queued(
                    MessageKind::ChannelAllocationRequest,
                    BROADCAST_CHANNEL_ID,
                    SyncBits { seq_bit: false, ack_bit: false },
                    final(self)@.nonce,
                ),
                ..old(self)@
            }),
    {
        if !matches!(self.state, Host::Unallocated) {
            return Err(Error::UnexpectedInput);
        }
        self.packet_state = PacketState::Idle;
        self.try_to_unlock = try_to_unlock;
        B::random_bytes(&mut self.alloc_nonce);
        buffer_truncate(&mut self.internal_buffer, 0);
        let _ = buffer_resize(&mut self.internal_buffer, NONCE_LEN, 0);
        let _ = deliver(self.alloc_nonce.as_slice(), buffer_as_mut_slice(&mut self.internal_buffer));
        assert(buffer_bytes(self.internal_buffer) =~= self.alloc_nonce@);
        let header = Header::new_channel_request();
        let fragmenter = match Fragmenter::new(
            header,
            SyncBits::new(),
            buffer_as_slice(&self.internal_buffer),
        ) {
            Ok(f) => f,
            Err(e) => {
                return Err(e);
            },
        };
        self.packet_state = PacketState::Sending(fragmenter);
        self.state = Host::Handshake0;
        Ok(())
    }

    /// Whether the device has given the channel its id.
    fn has_cid(&self) -> (r: bool)
        ensures
            r == host_has_cid(self@.state),
    {
        !matches!(self.state, Host::Unallocated | Host::Handshake0)
    }

    /// Whether the handshake lies behind the channel, whatever became of the pairing.
    pub fn handshake_done(&self) -> (r: bool)
        ensures
            r == host_handshake_done(self@.state),
    {
        !matches!(
            self.state,
            Host::Unallocated | Host::Handshake0 | Host::Handshake1 | Host::Handshake2
        )
    }

    /// The state of the protocol.
    pub fn state(&self) -> (r: Host)
        ensures
            r == self@.state,
    {
        self.state
    }

    /// Fills `dest` with the next datagram to send, if there is one, and
    /// tells whether it did.
    ///
    /// An acknowledgment that is owed goes first, in one datagram. Else the
    /// message that is being handed out yields its next datagram; once it is
    /// complete the send is marked as finished, on a channel that has its id,
    /// the buffer is idle again and false comes back. With nothing to hand
    /// out the call is unexpected. A `dest` that does not hold the datagram
    /// is insufficient. On an error nothing changes.
    pub fn data_out(&mut self, dest: &mut [u8]) -> (r: Result<bool, Error>)
        requires
            old(self)@.well_formed(),
        ensures
            final(self)@.well_formed(),
            final(dest)@.len() == old(dest)@.len(),
            r is Err ==> final(self)@ == old(self)@ && final(dest)@ == old(dest)@,
            match old(self)@.pending_ack {
                Some(bits) => if old(dest)@.len() < 9 {
                    r == Err::<bool, Error>(Error::InsufficientBuffer)
                } else {
                    &&& r == Ok::<bool, Error>(true)
                    &&& final(self)@ == (ChannelView { pending_ack: None, ..old(self)@ })
                    &&& final(dest)@ == fragment_at(
                        Header::blank(MessageKind::Ack, old(self)@.channel_id).stamped(bits, 0),
                        message_stream(
                            Header::blank(MessageKind::Ack, old(self)@.channel_id).stamped(bits, 0),
                            Seq::<u8>::empty(),
                        ),
                        0,
                        old(dest)@.len() as int,
                    )
                },
                None => match old(self)@.packet {
                    PacketState::Sending(f) => if f.done() {
                        &&& r == Ok::<bool, Error>(false)
                        &&& final(dest)@ == old(dest)@
                        &&& final(self)@ == (ChannelView {
                            packet: PacketState::Idle,
                            sync: if host_has_cid(old(self)@.state) {
                                ChannelSync {
                                    transmitted: old(self)@.sync.outstanding,
                                    ..old(self)@.sync
                                }
                            } else {
                                old(self)@.sync
                            },
                            ..old(self)@
                        })
                    } else if old(dest)@.len() < 6 {
                        r == Err::<bool, Error>(Error::InsufficientBuffer)
                    } else {
                        &&& r == Ok::<bool, Error>(true)
                        &&& final(dest)@ == fragment_at(
                            f.header_of(),
                            f.stream_of(old(self)@.buffer),
                            f.offset_of() as int,
                            old(dest)@.len() as int,
                        )
                        &&& final(self)@ == (ChannelView {
                            packet: final(self)@.packet,
                            ..old(self)@
                        })
                        &&& final(self)@.packet is Sending
                        &&& final(self)@.packet->Sending_0.header_of() == f.header_of()
                        &&& final(self)@.packet->Sending_0.checksum_of() == f.checksum_of()
                        &&& final(self)@.packet->Sending_0.offset_of() == f.offset_of() + chunk_len(
                            f.header_of(),
                            f.header_of().length as int,
                            f.offset_of() as int,
                            old(dest)@.len() as int,
                        )
                    },
                    _ => r == Err::<bool, Error>(Error::UnexpectedInput),
                },
            },
    {
        match self.send_ack {
            Some(bits) => {
                let header = Header::new_ack(self.channel_id);
                let empty: [u8; 0] = [];
                assert(empty@ =~= Seq::<u8>::empty());
                match Fragmenter::single(header, bits, empty.as_slice(), dest) {
                    Ok(()) => {
                        self.send_ack = None;
                        return Ok(true);
                    },
                    Err(e) => {
                        return Err(e);
                    },
                }
            },
            None => {},
        }
        let mut fragmenter = match self.packet_state {
            PacketState::Sending(f) => f,
            _ => {
                return Err(Error::UnexpectedInput);
            },
        };
        if fragmenter.is_done() {
            if self.has_cid() {
                self.sync.send_finish();
            }
            self.packet_state = PacketState::Idle;
            return Ok(false);
        }
        match fragmenter.next(buffer_as_slice(&self.internal_buffer), dest) {
            Ok(written) => {
                self.packet_state = PacketState::Sending(fragmenter);
                Ok(written)
            },
            Err(e) => Err(e),
        }
    }
}

/// What `start_handshake` makes of a channel. With the handshake state
/// not initial, or a message still unacknowledged, the call is unexpected and
/// nothing changes. Else the handshake is open, with the device properties
/// as prologue and a fresh ephemeral key, and its first message, which ends
/// in the byte that tells whether the device should try to unlock, is queued.
pub open spec fn handshake_started(
    pre: ChannelView<Host>,
    properties: Seq<u8>,
    r: Result<(), Error>,
    post: ChannelView<Host>,
) -> bool {
    if !(pre.noise is Initial) || pre.sync.outstanding {
        r == Err::<(), Error>(Error::UnexpectedInput) && post == pre
    } else {
        &&& r == Ok::<(), Error>(())
        &&& post.noise is Handshake
        &&& post.buffer.len() == 33
        &&& post.buffer[32] == (if pre.try_to_unlock {
            1u8
        } else {
            0u8
        })
        &&& exists|ephemeral: Seq<u8>| #[trigger]
            first_message(engine_for(properties), unlock_payload(pre.try_to_unlock), ephemeral) == (
                post.noise->state,
                post.buffer,
            )
        &&& post == (ChannelView {
            noise: post.noise,
            buffer: post.buffer,
            sync: ChannelSync { outstanding: true, transmitted: false, ..pre.sync },
            packet: queued(
                MessageKind::Handshake(HandshakeMessage::InitiationRequest),
                pre.channel_id,
                SyncBits { seq_bit: pre.sync.send_bit, ack_bit: false },
                post.buffer,
            ),
            ..pre
        })
    }
}

/// What `continue_handshake` makes of a channel whose buffer holds the
/// response of the device. Out of the handshake state the call is
/// unexpected; a response of another length than 96 is malformed; with a
/// message still unacknowledged the call is unexpected; nothing changes
/// then. A response that the handshake refuses fails it, and only the buffer,
/// zeroed and idle, has changed. Else the handshake is complete, with a
/// fresh static key and no credential, and its last message is queued.
pub open spec fn handshake_continued(
    pre: ChannelView<Host>,
    r: Result<(), Error>,
    post: ChannelView<Host>,
) -> bool {
    if !(pre.noise is Handshake) {
        r == Err::<(), Error>(Error::UnexpectedInput) && post == pre
    } else if pre.buffer.len() != 96 {
        r == Err::<(), Error>(Error::MalformedData) && post == pre
    } else if pre.sync.outstanding {
        r == Err::<(), Error>(Error::UnexpectedInput) && post == pre
    } else {
        match read_response(pre.noise->state, pre.buffer) {
            None => r == Err::<(), Error>(Error::HandshakeFailed) && post == (ChannelView {
                buffer: repeated(0, 128),
                packet: PacketState::Idle,
                ..pre
            }),
            Some(responded) => {
                &&& r == Ok::<(), Error>(())
                &&& post.noise.sent() == 0
                &&& post.noise.received() == 0
                &&& post.buffer.len() == 64
                &&& exists|key: [u8; 32]| #[trigger]
                    pairing_completed(responded, key@, Seq::<u8>::empty(), post.noise, post.buffer)
                &&& post == (ChannelView {
                    noise: post.noise,
                    buffer: post.buffer,
                    sync: ChannelSync { outstanding: true, transmitted: false, ..pre.sync },
                    packet: queued(
                        MessageKind::Handshake(HandshakeMessage::CompletionRequest),
                        pre.channel_id,
                        SyncBits { seq_bit: pre.sync.send_bit, ack_bit: false },
                        post.buffer,
                    ),
                    ..pre
                })
            },
        }
    }
}

/// What `finish_handshake` returns for a channel whose buffer holds the
/// encrypted report of the device: the error of the decryption, or the state
/// that the plaintext spells; a plaintext that spells none is malformed.
pub open spec fn device_report(pre: ChannelView<Host>) -> Result<DeviceState, Error> {
    match pre.noise.decrypt_outcome(pre.buffer) {
        Err(e) => Err(e),
        Ok(_) => match DeviceState::decode(opened(pre.noise->decrypt, pre.buffer)->Some_0) {
            Some(device) => Ok(device),
            None => Err(Error::MalformedData),
        },
    }
}

/// What `finish_handshake` makes of a channel: where the report opens, the
/// receiving cipher moves on by one message; nothing else changes.
pub open spec fn report_decrypted(pre: ChannelView<Host>, post: ChannelView<Host>) -> bool {
    match pre.noise.decrypt_outcome(pre.buffer) {
        Err(_) => post == pre,
        Ok(_) => {
            &&& post == (ChannelView { noise: post.noise, ..pre })
            &&& post.noise == pre.noise.with_ciphers(pre.noise->encrypt, post.noise->decrypt)
            &&& post.noise.received() == pre.noise.received() + 1
        },
    }
}

/// The result of a step without what it returned on success.
pub open spec fn outcome_of<T>(r: Result<T, Error>) -> Result<(), Error> {
    match r {
        Ok(_) => Ok(()),
        Err(e) => Err(e),
    }
}

/// What an error report makes of a channel: the code of the peer is
/// recorded. A report without a known code is malformed and changes nothing.
pub open spec fn error_recorded(mid: ChannelView<Host>, r: Result<(), Error>, post: ChannelView<Host>)
    -> bool {
    if mid.buffer.len() == 0 {
        r == Err::<(), Error>(Error::MalformedData) && post == mid
    } else {
        match TransportError::decode(mid.buffer[0]) {
            None => r == Err::<(), Error>(Error::MalformedData) && post == mid,
            Some(code) => r == Ok::<(), Error>(()) && post == (ChannelView {
                peer_error: Some(code),
                ..mid
            }),
        }
    }
}

/// What an allocation response makes of a channel that awaits one. A
/// response that is malformed, or brings more device properties than the
/// channel takes, gives that error and changes nothing. Else the channel has
/// its id and the handshake is opened; the state moves on if that succeeds.
pub open spec fn channel_opened(mid: ChannelView<Host>, r: Result<(), Error>, post: ChannelView<Host>)
    -> bool {
    match allocation_response(mid.buffer, mid.nonce) {
        Err(e) => r == Err::<(), Error>(e) && post == mid,
        Ok((channel_id, properties)) => if properties.len() > 64 {
            r == Err::<(), Error>(Error::InsufficientBuffer) && post == mid
        } else {
            match r {
                Ok(_) => post.state == Host::Handshake1 && handshake_started(
                    ChannelView { channel_id, ..mid },
                    properties,
                    r,
                    ChannelView { state: mid.state, ..post },
                ),
                Err(_) => handshake_started(ChannelView { channel_id, ..mid }, properties, r, post),
            }
        },
    }
}

/// What the dispatch of a verified payload makes of a channel. `mid` is the
/// channel with the payload in its buffer, which is idle; `kind` is the kind
/// of the message.
///
/// An error report records the code of the peer and goes no further. Any
/// other message is taken for what the state of the protocol awaits: the
/// allocation response, which gives the channel its id and opens the
/// handshake; the handshake response, which completes it; the report of the
/// device, which decides between pairing and encrypted transport. The state
/// moves on only when the step succeeds. In every other state a message is
/// unexpected.
pub open spec fn payload_dispatched(
    kind: MessageKind,
    mid: ChannelView<Host>,
    r: Result<(), Error>,
    post: ChannelView<Host>,
) -> bool {
    if kind == MessageKind::TransportError {
        error_recorded(mid, r, post)
    } else {
        match mid.state {
            Host::Handshake0 => channel_opened(mid, r, post),
            Host::Handshake1 => match r {
                Ok(_) => post.state == Host::Handshake2 && handshake_continued(
                    mid,
                    r,
                    ChannelView { state: Host::Handshake1, ..post },
                ),
                Err(_) => handshake_continued(mid, r, post),
            },
            Host::Handshake2 => match device_report(mid) {
                Ok(device) => r == Ok::<(), Error>(()) && post.state == device.next_host_state()
                    && report_decrypted(mid, ChannelView { state: Host::Handshake2, ..post }),
                Err(e) => r == Err::<(), Error>(e) && report_decrypted(mid, post),
            },
            _ => r == Err::<(), Error>(Error::UnexpectedInput) && post == mid,
        }
    }
}

/// The kind and the payload of the complete message in the buffer of a
/// channel, the payload left alone in the buffer, which becomes idle. Unless
/// the buffer is receiving and the message complete, this is unexpected; a
/// message that fails the integrity check gives the error of the check.
pub open spec fn payload_taken(pre: ChannelView<Host>) -> Result<(MessageKind, ChannelView<Host>), Error> {
    if !(pre.packet is Receiving) || !pre.packet->Receiving_0.done() {
        Err(Error::UnexpectedInput)
    } else {
        let reassembler = pre.packet->Receiving_0;
        match verify_outcome(reassembler.header_of(), reassembler.received_of() as int, pre.buffer) {
            Err(e) => Err(e),
            Ok(len) => Ok(
                (
                    reassembler.header_of().kind,
                    ChannelView {
                        packet: PacketState::Idle,
                        buffer: pre.buffer.take(len as int),
                        ..pre
                    },
                ),
            ),
        }
    }
}

/// What the dispatch of a complete message makes of a channel: its payload
/// is taken and dispatched. Where it cannot be taken nothing changes.
pub open spec fn message_dispatched(pre: ChannelView<Host>, r: Result<(), Error>, post: ChannelView<Host>)
    -> bool {
    match payload_taken(pre) {
        Err(e) => r == Err::<(), Error>(e) && post == pre,
        Ok((kind, mid)) => payload_dispatched(kind, mid, r, post),
    }
}

/// What a datagram does to a channel before its reassembler is looked at.
pub enum Intake {
    /// The datagram was refused with an error.
    Failed(Error, ChannelView<Host>),
    /// The datagram was passed over.
    Passed(ChannelView<Host>),
    /// The reassembler took the datagram.
    Taken(ChannelView<Host>),
}

/// What a datagram does to a channel before any dispatch.
pub enum Reception {
    /// The datagram was refused with an error.
    Failed(Error, ChannelView<Host>),
    /// The datagram was taken, or passed over, and no message is complete.
    Waiting(ChannelView<Host>),
    /// The datagram completed a message, which is to be dispatched.
    Complete(ChannelView<Host>),
}

/// The first byte of a datagram; zero for an empty one.
pub open spec fn first_byte(datagram: Seq<u8>) -> u8 {
    if datagram.len() > 0 {
        datagram[0]
    } else {
        0
    }
}

/// What becomes of a channel whose reassembler has just taken a datagram.
/// An incomplete message waits for more. A complete acknowledgment, on a
/// channel that has its id, goes to the tracker and the buffer is idle again.
/// Any other complete message is to be dispatched, after an acknowledgment
/// for it is noted on a channel that has its id.
pub open spec fn progressed(mid: ChannelView<Host>) -> Reception {
    let reassembler = mid.packet->Receiving_0;
    let has_cid = host_has_cid(mid.state);
    if !reassembler.done() {
        Reception::Waiting(mid)
    } else if reassembler.header_of().kind == MessageKind::Ack && has_cid {
        Reception::Waiting(
            ChannelView {
                sync: mid.sync.after_delivery(reassembler.header_of().sync),
                packet: PacketState::Idle,
                ..mid
            },
        )
    } else if has_cid {
        Reception::Complete(
            ChannelView {
                pending_ack: Some(SyncBits { seq_bit: false, ack_bit: mid.sync.last_received }),
                sync: ChannelSync { ack_owed: false, ..mid.sync },
                ..mid
            },
        )
    } else {
        Reception::Complete(mid)
    }
}

/// What a continuation does to a channel: an idle one passes it over, a
/// receiving one feeds it to its reassembler.
pub open spec fn continuation_intake(pre: ChannelView<Host>, datagram: Seq<u8>) -> Intake {
    match pre.packet {
        PacketState::Receiving(reassembler) => match next_outcome(
            reassembler.header_of(),
            reassembler.received_of() as int,
            datagram,
            128,
        ) {
            Err(e) => Intake::Failed(e, pre),
            Ok(bytes) => Intake::Taken(
                ChannelView {
                    buffer: pre.buffer.take(reassembler.received_of() as int) + bytes
                        + pre.buffer.skip((reassembler.received_of() + bytes.len()) as int),
                    packet: PacketState::Receiving(
                        Reassembler::at(
                            reassembler.header_of(),
                            reassembler.received_of() + bytes.len(),
                        ),
                    ),
                    ..pre
                },
            ),
        },
        _ => Intake::Passed(pre),
    }
}

/// What the first datagram of a message does to a channel. On a channel
/// that has its id, and unless the datagram is an acknowledgment, the tracker
/// has to take its sequence bit for new: else the buffer becomes idle and the
/// datagram is dropped. The buffer is zeroed and a reassembler started; if
/// that fails the buffer is idle.
pub open spec fn first_intake(pre: ChannelView<Host>, datagram: Seq<u8>) -> Intake {
    let byte = first_byte(datagram);
    let numbered = host_has_cid(pre.state) && kind_of_byte(byte) != Some(MessageKind::Ack);
    let bits = SyncBits::of_byte(byte);
    if numbered && !pre.sync.accepts(bits) {
        Intake::Passed(ChannelView { packet: PacketState::Idle, ..pre })
    } else {
        let sync = if numbered {
            pre.sync.after_receive(bits)
        } else {
            pre.sync
        };
        match first_outcome(datagram, 128) {
            Err(e) => Intake::Failed(
                e,
                ChannelView { sync, buffer: repeated(0, 128), packet: PacketState::Idle, ..pre },
            ),
            Ok((header, bytes)) => Intake::Taken(
                ChannelView {
                    sync,
                    buffer: bytes + repeated(0, 128).skip(bytes.len() as int),
                    packet: PacketState::Receiving(Reassembler::at(header, bytes.len())),
                    ..pre
                },
            ),
        }
    }
}

/// What `datagram` does to a channel before its reassembler is looked at.
/// While a message is being handed out a datagram is unexpected.
pub open spec fn intake(pre: ChannelView<Host>, datagram: Seq<u8>) -> Intake {
    if pre.packet is Sending {
        Intake::Failed(Error::UnexpectedInput, pre)
    } else if first_byte(datagram) & 0x80 != 0 {
        continuation_intake(pre, datagram)
    } else {
        first_intake(pre, datagram)
    }
}

/// What `datagram` does to a channel before any dispatch.
pub open spec fn reception(pre: ChannelView<Host>, datagram: Seq<u8>) -> Reception {
    match intake(pre, datagram) {
        Intake::Failed(e, post) => Reception::Failed(e, post),
        Intake::Passed(post) => Reception::Waiting(post),
        Intake::Taken(mid) => progressed(mid),
    }
}

impl<B: Backend> ChannelState<Host, B> {
    /// Opens the handshake with `device_properties` as prologue and queues
    /// its first message.
    pub fn start_handshake(&mut self, device_properties: &[u8]) -> (r: Result<(), Error>)
        requires
            old(self)@.well_formed(),
        ensures
            final(self)@.well_formed(),
            handshake_started(old(self)@, device_properties@, r, final(self)@),
    {
        if !matches!(self.noise_state, NoiseState::Initial) || self.sync.outstanding {
            return Err(Error::UnexpectedInput);
        }
        self.packet_state = PacketState::Idle;
        zero_buffer(&mut self.internal_buffer);
        let written = match self.noise_state.start_pairing(
            device_properties,
            self.try_to_unlock,
            buffer_as_mut_slice(&mut self.internal_buffer),
        ) {
            Ok(n) => n,
            Err(e) => {
                return Err(e);
            },
        };
        buffer_truncate(&mut self.internal_buffer, written);
        self.queue_handshake(HandshakeMessage::InitiationRequest)
    }

    /// Queues the handshake message that the buffer holds.
    fn queue_handshake(&mut self, message: HandshakeMessage) -> (r: Result<(), Error>)
        requires
            old(self)@.packet is Idle,
            old(self)@.well_formed(),
            !old(self)@.sync.outstanding,
        ensures
            final(self)@.well_formed(),
            r == Ok::<(), Error>(()),
            final(self)@ == (ChannelView {
                sync: ChannelSync { outstanding: true, transmitted: false, ..old(self)@.sync },
                packet: queued(
                    MessageKind::Handshake(message),
                    old(self)@.channel_id,
                    SyncBits { seq_bit: old(self)@.sync.send_bit, ack_bit: false },
                    old(self)@.buffer,
                ),
                ..old(self)@
            }),
    {
        let header = Header::new_handshake(self.channel_id, message);
        let bits = match self.sync.send_start() {
            Some(b) => b,
            None => {
                return Err(Error::UnexpectedInput);
            },
        };
        let fragmenter = match Fragmenter::new(header, bits, buffer_as_slice(&self.internal_buffer)) {
            Ok(f) => f,
            Err(e) => {
                return Err(e);
            },
        };
        self.packet_state = PacketState::Sending(fragmenter);
        Ok(())
    }

    /// Completes the handshake with the response of the device that the
    /// buffer holds, as a first-time pairing without credential, and queues
    /// the last handshake message.
    pub fn continue_handshake(&mut self) -> (r: Result<(), Error>)
        requires
            old(self)@.well_formed(),
        ensures
            final(self)@.well_formed(),
            handshake_continued(old(self)@, r, final(self)@),
    {
        if !matches!(self.noise_state, NoiseState::Handshake { .. }) {
            return Err(Error::UnexpectedInput);
        }
        let payload = buffer_clone(&self.internal_buffer);
        if buffer_as_slice(&payload).len() != 96 {
            return Err(Error::MalformedData);
        }
        if self.sync.outstanding {
            return Err(Error::UnexpectedInput);
        }
        self.packet_state = PacketState::Idle;
        zero_buffer(&mut self.internal_buffer);
        let cred_lookup = |_ephemeral: &[u8], _masked_static: &[u8]| -> (key: Option<[u8; 32]>) { None };
        let credential: [u8; 0] = [];
        assert(credential@ =~= Seq::<u8>::empty());
        let written = match self.noise_state.complete_pairing(
            buffer_as_slice(&payload),
            cred_lookup,
            credential.as_slice(),
            buffer_as_mut_slice(&mut self.internal_buffer),
        ) {
            Ok(n) => n,
            Err(e) => {
                return Err(e);
            },
        };
        buffer_truncate(&mut self.internal_buffer, written);
        assert(buffer_bytes(self.internal_buffer).len() == 64);
        self.queue_handshake(HandshakeMessage::CompletionRequest)
    }

    /// Decrypts the report of the device that the buffer holds and reads the
    /// state of the device out of it.
    pub fn finish_handshake(&mut self) -> (r: Result<DeviceState, Error>)
        requires
            old(self)@.well_formed(),
        ensures
            final(self)@.well_formed(),
            r == device_report(old(self)@),
            report_decrypted(old(self)@, final(self)@),
    {
        let mut payload = buffer_clone(&self.internal_buffer);
        let len = match self.noise_state.decrypt(buffer_as_mut_slice(&mut payload)) {
            Ok(n) => n,
            Err(e) => {
                return Err(e);
            },
        };
        buffer_truncate(&mut payload, len);
        match DeviceState::from(buffer_as_slice(&payload)) {
            Some(state) => Ok(state),
            None => Err(Error::MalformedData),
        }
    }

    /// Checks the complete message in the buffer, leaves its payload alone
    /// in the buffer and returns its kind.
    fn take_payload(&mut self) -> (r: Result<MessageKind, Error>)
        requires
            old(self)@.well_formed(),
        ensures
            final(self)@.well_formed(),
            match payload_taken(old(self)@) {
                Err(e) => r == Err::<MessageKind, Error>(e) && final(self)@ == old(self)@,
                Ok((kind, mid)) => r == Ok::<MessageKind, Error>(kind) && final(self)@ == mid,
            },
    {
        let reassembler = match self.packet_state {
            PacketState::Receiving(re) => re,
            _ => {
                return Err(Error::UnexpectedInput);
            },
        };
        if !reassembler.is_done() {
            return Err(Error::UnexpectedInput);
        }
        let len = match reassembler.verify(buffer_as_slice(&self.internal_buffer)) {
            Ok(n) => n,
            Err(e) => {
                return Err(e);
            },
        };
        self.packet_state = PacketState::Idle;
        buffer_truncate(&mut self.internal_buffer, len);
        Ok(reassembler.header().kind)
    }

    /// Records the error code that the payload in the buffer reports.
    fn record_error(&mut self) -> (r: Result<(), Error>)
        requires
            old(self)@.well_formed(),
        ensures
            final(self)@.well_formed(),
            error_recorded(old(self)@, r, final(self)@),
    {
        let payload = buffer_as_slice(&self.internal_buffer);
        if payload.len() == 0 {
            return Err(Error::MalformedData);
        }
        let code = match TransportError::from_code(payload[0]) {
            Ok(c) => c,
            Err(e) => {
                return Err(e);
            },
        };
        self.peer_error = Some(code);
        Ok(())
    }

    /// Takes the allocation response in the buffer: the channel gets its id
    /// and the handshake is opened with the device properties.
    fn open_channel(&mut self) -> (r: Result<(), Error>)
        requires
            old(self)@.well_formed(),
        ensures
            final(self)@.well_formed(),
            channel_opened(old(self)@, r, final(self)@),
    {
        let copy = buffer_clone(&self.internal_buffer);
        let (channel_id, properties) = match parse_allocation_response(
            buffer_as_slice(&copy),
            &self.alloc_nonce,
        ) {
            Ok(pair) => pair,
            Err(e) => {
                return Err(e);
            },
        };
        if properties.len() > MAX_DEVICE_PROPERTIES_LEN {
            return Err(Error::InsufficientBuffer);
        }
        self.channel_id = channel_id;
        match self.start_handshake(properties) {
            Ok(()) => {
                let ghost started = self@;
                self.state = Host::Handshake1;
                assert(started == (ChannelView { state: old(self)@.state, ..self@ }));
                Ok(())
            },
            Err(e) => Err(e),
        }
    }

    /// Dispatches the payload in the buffer by the state of the protocol.
    fn dispatch(&mut self, kind: MessageKind) -> (r: Result<(), Error>)
        requires
            old(self)@.well_formed(),
        ensures
            final(self)@.well_formed(),
            payload_dispatched(kind, old(self)@, r, final(self)@),
    {
        if matches!(kind, MessageKind::TransportError) {
            return self.record_error();
        }
        match self.state {
            Host::Handshake0 => self.open_channel(),
            Host::Handshake1 => match self.continue_handshake() {
                Ok(()) => {
                    let ghost continued = self@;
                    self.state = Host::Handshake2;
                    assert(continued == (ChannelView { state: Host::Handshake1, ..self@ }));
                    Ok(())
                },
                Err(e) => Err(e),
            },
            Host::Handshake2 => match self.finish_handshake() {
                Ok(device_state) => {
                    let ghost finished = self@;
                    self.state = device_state.host_state();
                    assert(finished == (ChannelView { state: Host::Handshake2, ..self@ }));
                    Ok(())
                },
                Err(e) => Err(e),
            },
            _ => Err(Error::UnexpectedInput),
        }
    }

    /// Checks the complete message in the buffer and dispatches its payload.
    fn incoming_internal(&mut self) -> (r: Result<(), Error>)
        requires
            old(self)@.well_formed(),
        ensures
            final(self)@.well_formed(),
            message_dispatched(old(self)@, r, final(self)@),
    {
        let kind = match self.take_payload() {
            Ok(k) => k,
            Err(e) => {
                return Err(e);
            },
        };
        self.dispatch(kind)
    }

    /// Feeds a continuation to the reassembler, if there is one.
    fn take_continuation(&mut self, datagram: &[u8]) -> (r: Result<bool, Error>)
        requires
            old(self)@.well_formed(),
            !(old(self)@.packet is Sending),
        ensures
            final(self)@.well_formed(),
            match continuation_intake(old(self)@, datagram@) {
                Intake::Failed(e, post) => r == Err::<bool, Error>(e) && final(self)@ == post,
                Intake::Passed(post) => r == Ok::<bool, Error>(false) && final(self)@ == post,
                Intake::Taken(mid) => r == Ok::<bool, Error>(true) && final(self)@ == mid && final(self)@.packet is Receiving,
            },
    {
        let mut reassembler = match self.packet_state {
            PacketState::Receiving(re) => re,
            _ => {
                return Ok(false);
            },
        };
        match reassembler.update(datagram, buffer_as_mut_slice(&mut self.internal_buffer)) {
            Ok(()) => {},
            Err(e) => {
                return Err(e);
            },
        }
        self.packet_state = PacketState::Receiving(reassembler);
        Ok(true)
    }

    /// Starts a message with its first datagram, unless the tracker tells
    /// that the message was seen before.
    fn take_first(&mut self, datagram: &[u8], control: ControlByte) -> (r: Result<bool, Error>)
        requires
            old(self)@.well_formed(),
            !(old(self)@.packet is Sending),
            control.byte == first_byte(datagram@),
        ensures
            final(self)@.well_formed(),
            match first_intake(old(self)@, datagram@) {
                Intake::Failed(e, post) => r == Err::<bool, Error>(e) && final(self)@ == post,
                Intake::Passed(post) => r == Ok::<bool, Error>(false) && final(self)@ == post,
                Intake::Taken(mid) => r == Ok::<bool, Error>(true) && final(self)@ == mid && final(self)@.packet is Receiving,
            },
    {
        self.packet_state = PacketState::Idle;
        if self.has_cid() && !control.is_ack() {
            if !self.sync.receive_start(control.sync_bits()) {
                return Ok(false);
            }
        }
        zero_buffer(&mut self.internal_buffer);
        let reassembler = match Reassembler::new(
            datagram,
            buffer_as_mut_slice(&mut self.internal_buffer),
        ) {
            Ok(re) => re,
            Err(e) => {
                return Err(e);
            },
        };
        self.packet_state = PacketState::Receiving(reassembler);
        Ok(true)
    }

    /// Looks at the reassembler after it took a datagram: waits for more,
    /// hands a complete acknowledgment to the tracker, or dispatches a
    /// complete message.
    fn settle(&mut self) -> (r: Result<bool, Error>)
        requires
            old(self)@.well_formed(),
            old(self)@.packet is Receiving,
        ensures
            final(self)@.well_formed(),
            match progressed(old(self)@) {
                Reception::Failed(e, post) => false,
                Reception::Waiting(post) => r == Ok::<bool, Error>(true) && final(self)@ == post,
                Reception::Complete(mid) => r != Ok::<bool, Error>(true) && message_dispatched(
                    mid,
                    outcome_of(r),
                    final(self)@,
                ),
            },
    {
        let reassembler = match self.packet_state {
            PacketState::Receiving(re) => re,
            _ => {
                return Err(Error::UnexpectedInput);
            },
        };
        if !reassembler.is_done() {
            return Ok(true);
        }
        let header = reassembler.header();
        let has_cid = self.has_cid();
        if header.is_ack() && has_cid {
            let _ = self.sync.send_mark_delivered(header.sync);
            self.packet_state = PacketState::Idle;
            return Ok(true);
        }
        if has_cid {
            self.send_ack = Some(self.sync.receive_acknowledge());
        }
        match self.incoming_internal() {
            Ok(()) => Ok(false),
            Err(e) => Err(e),
        }
    }

    /// Takes a received datagram and tells whether more are awaited: true
    /// while no message is complete, and when the datagram was passed over or
    /// completed an acknowledgment; false once a message was completed and
    /// processed. What the datagram does to the channel is `reception`; a
    /// message that it completes is dispatched as `message_dispatched` says,
    /// and an error of the dispatch comes back.
    pub fn data_in(&mut self, datagram: &[u8]) -> (r: Result<bool, Error>)
        requires
            old(self)@.well_formed(),
        ensures
            final(self)@.well_formed(),
            match reception(old(self)@, datagram@) {
                Reception::Failed(e, post) => r == Err::<bool, Error>(e) && final(self)@ == post,
                Reception::Waiting(post) => r == Ok::<bool, Error>(true) && final(self)@ == post,
                Reception::Complete(mid) => r != Ok::<bool, Error>(true) && message_dispatched(
                    mid,
                    outcome_of(r),
                    final(self)@,
                ),
            },
    {
        if matches!(self.packet_state, PacketState::Sending(_)) {
            return Err(Error::UnexpectedInput);
        }
        let byte: u8 = if datagram.len() > 0 {
            datagram[0]
        } else {
            0
        };
        let control = ControlByte::from(byte);
        let taken = if control.is_continuation() {
            self.take_continuation(datagram)
        } else {
            self.take_first(datagram, control)
        };
        match taken {
            Ok(true) => self.settle(),
            Ok(false) => Ok(true),
            Err(e) => Err(e),
        }
    }
}

/// An allocation response that echoes the nonce and brings a channel id
/// gives the channel that id. With the handshake state initial and nothing
/// unacknowledged the handshake opens: the state is `Handshake1` and the
/// first handshake message is queued. Else the response is unexpected.
pub proof fn lemma_allocation_round_trip(
    mid: ChannelView<Host>,
    channel_id: u16,
    properties: Seq<u8>,
    r: Result<(), Error>,
    post: ChannelView<Host>,
)
    requires
        mid.nonce.len() == 8,
        properties.len() <= 64,
        mid.buffer == mid.nonce + seq![high_byte(channel_id), low_byte(channel_id)] + properties,
        channel_opened(mid, r, post),
    ensures
        allocation_response(mid.buffer, mid.nonce) == Ok::<(u16, Seq<u8>), Error>(
            (channel_id, properties),
        ),
        post.channel_id == channel_id,
        mid.noise is Initial && !mid.sync.outstanding ==> r == Ok::<(), Error>(()) && post.state
            == Host::Handshake1 && post.noise is Handshake && post.packet == queued(
            MessageKind::Handshake(HandshakeMessage::InitiationRequest),
            channel_id,
            SyncBits { seq_bit: mid.sync.send_bit, ack_bit: false },
            post.buffer,
        ) && exists|ephemeral: Seq<u8>| #[trigger]
            first_message(engine_for(properties), unlock_payload(mid.try_to_unlock), ephemeral) == (
                post.noise->state,
                post.buffer,
            ),
        !(mid.noise is Initial) || mid.sync.outstanding ==> r == Err::<(), Error>(
            Error::UnexpectedInput,
        ) && post.state == mid.state,
{
    assert(mid.buffer.take(8) =~= mid.nonce);
    assert(mid.buffer.skip(10) =~= properties);
    assert(mid.buffer[8] == high_byte(channel_id));
    assert(mid.buffer[9] == low_byte(channel_id));
}

/// An allocation response that does not echo the nonce is malformed and
/// changes nothing: the channel still awaits its response.
pub proof fn lemma_wrong_nonce_is_malformed(mid: ChannelView<Host>, r: Result<(), Error>, post: ChannelView<Host>)
    requires
        mid.buffer.len() < 8 || mid.buffer.take(8) != mid.nonce,
        channel_opened(mid, r, post),
    ensures
        r == Err::<(), Error>(Error::MalformedData),
        post == mid,
{
}

/// A continuation that reaches an idle channel is passed over: more is
/// awaited and nothing changes.
pub proof fn lemma_continuation_while_idle(pre: ChannelView<Host>, datagram: Seq<u8>)
    requires
        pre.packet is Idle,
        first_byte(datagram) & 0x80 != 0,
    ensures
        reception(pre, datagram) == Reception::Waiting(pre),
{
}

/// On a channel that has its id, the first datagram of a message that
/// repeats the last accepted sequence bit is dropped: more is awaited, the
/// buffer is idle and nothing else changes, so that the continuations of the
/// message are passed over. An acknowledgment carries no sequence bit and is
/// not meant.
pub proof fn lemma_duplicate_is_dropped(pre: ChannelView<Host>, datagram: Seq<u8>, continuation: Seq<u8>)
    requires
        host_has_cid(pre.state),
        !(pre.packet is Sending),
        first_byte(datagram) & 0x80 == 0,
        kind_of_byte(first_byte(datagram)) != Some(MessageKind::Ack),
        SyncBits::of_byte(first_byte(datagram)).seq_bit == pre.sync.last_received,
        first_byte(continuation) & 0x80 != 0,
    ensures
        reception(pre, datagram) == Reception::Waiting(
            ChannelView { packet: PacketState::Idle, ..pre },
        ),
        reception(ChannelView { packet: PacketState::Idle, ..pre }, continuation)
            == Reception::Waiting(ChannelView { packet: PacketState::Idle, ..pre }),
{
}

/// On a channel that has its id, the first datagram of a message with the
/// other sequence bit than the last accepted one is taken, and the tracker
/// then holds its bit: the same datagram again would be dropped.
pub proof fn lemma_new_message_moves_the_bit(pre: ChannelView<Host>, datagram: Seq<u8>)
    requires
        host_has_cid(pre.state),
        !(pre.packet is Sending),
        first_byte(datagram) & 0x80 == 0,
        kind_of_byte(first_byte(datagram)) != Some(MessageKind::Ack),
        SyncBits::of_byte(first_byte(datagram)).seq_bit != pre.sync.last_received,
    ensures
        match intake(pre, datagram) {
            Intake::Failed(_, post) => post.sync.last_received == SyncBits::of_byte(
                first_byte(datagram),
            ).seq_bit && !post.sync.accepts(SyncBits::of_byte(first_byte(datagram))),
            Intake::Taken(post) => post.sync.last_received == SyncBits::of_byte(
                first_byte(datagram),
            ).seq_bit && !post.sync.accepts(SyncBits::of_byte(first_byte(datagram))),
            Intake::Passed(_) => false,
        },
{
}

/// On a channel that has its id and is not handing out a message, a complete
/// acknowledgment that does not echo the bit of the message in flight
/// changes nothing but the buffer, which is idle: more is awaited, the
/// message stays unacknowledged and no acknowledgment is noted in reply.
pub proof fn lemma_mismatched_ack_datagram(pre: ChannelView<Host>, datagram: Seq<u8>, header: Header)
    requires
        host_has_cid(pre.state),
        !(pre.packet is Sending),
        pre.sync.outstanding,
        first_byte(datagram) & 0x80 == 0,
        kind_of_byte(first_byte(datagram)) == Some(MessageKind::Ack),
        first_outcome(datagram, 128) is Ok,
        first_outcome(datagram, 128)->Ok_0.0 == header,
        first_outcome(datagram, 128)->Ok_0.1.len() == header.length,
        header.kind == MessageKind::Ack,
        header.sync.ack_bit != pre.sync.send_bit,
    ensures
        reception(pre, datagram) == Reception::Waiting(
            ChannelView {
                buffer: first_outcome(datagram, 128)->Ok_0.1 + repeated(0, 128).skip(
                    header.length as int,
                ),
                packet: PacketState::Idle,
                ..pre
            },
        ),
{
    Reassembler::lemma_at(header, header.length as nat);
}

/// Each step of the handshake is unexpected, and changes nothing, unless the
/// handshake state is the one that the step starts from.
pub proof fn lemma_handshake_step_out_of_state(
    pre: ChannelView<Host>,
    properties: Seq<u8>,
    r: Result<(), Error>,
    post: ChannelView<Host>,
)
    ensures
        !(pre.noise is Initial) && handshake_started(pre, properties, r, post) ==> r == Err::<
            (),
            Error,
        >(
            Error::UnexpectedInput,
        ) && post == pre,
        !(pre.noise is Handshake) && handshake_continued(pre, r, post) ==> r == Err::<(), Error>(
            Error::UnexpectedInput,
        ) && post == pre,
        !(pre.noise is Encrypted) ==> device_report(pre) == Err::<DeviceState, Error>(
            Error::UnexpectedInput,
        ) && (report_decrypted(pre, post) ==> post == pre),
{
}

/// Once the transport ciphers are established no step of the handshake
/// takes them away.
pub proof fn lemma_established_stays(
    pre: ChannelView<Host>,
    properties: Seq<u8>,
    r: Result<(), Error>,
    post: ChannelView<Host>,
)
    requires
        pre.noise is Encrypted,
        handshake_started(pre, properties, r, post) || handshake_continued(pre, r, post) || report_decrypted(
            pre,
            post,
        ),
    ensures
        post.noise is Encrypted,
{
}

/// The dispatch of a payload never moves the protocol backwards: the state
/// stays, or, on success alone, moves to the one that follows.
pub proof fn lemma_state_moves_forward(
    kind: MessageKind,
    mid: ChannelView<Host>,
    r: Result<(), Error>,
    post: ChannelView<Host>,
)
    requires
        payload_dispatched(kind, mid, r, post),
    ensures
        r is Err ==> post.state == mid.state,
        post.state == mid.state || (mid.state == Host::Handshake0 && post.state == Host::Handshake1)
            || (mid.state == Host::Handshake1 && post.state == Host::Handshake2) || (mid.state
            == Host::Handshake2 && (post.state == Host::Pairing0 || post.state
            == Host::EncryptedTransport)),
{
}

} // verus!
