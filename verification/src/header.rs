//! The prefix of a datagram.
//!
//! Every datagram starts with the control byte and the channel id, most
//! significant byte first. The first fragment of a message goes on with the
//! number of bytes that follow the header over all fragments of the message:
//! the payload and its checksum.

use vstd::prelude::*;
use vstd::slice::slice_subrange;
use crate::alternating_bit::SyncBits;
use crate::control_byte::{
    control_byte_of, kind_of_byte, lemma_control_byte_roundtrip, ControlByte, HandshakeMessage,
    MessageKind,
};
use crate::error::Error;

verus! {

/// Length of the nonce that correlates a channel allocation with its response.
pub const NONCE_LEN: usize = 8;

/// The channel id of datagrams that belong to no allocated channel.
pub const BROADCAST_CHANNEL_ID: u16 = 0xFFFF;

/// Length of the header of a continuation fragment; no datagram is shorter.
pub const CONTINUATION_HEADER_LEN: usize = 3;

/// Length of the header of a first fragment.
pub const INITIAL_HEADER_LEN: usize = 5;

/// The longest payload that the length field of a header can announce.
pub const MAX_PAYLOAD_LEN: usize = 65531;

/// The 16-bit number that two bytes spell, most significant first.
pub open spec fn be16(hi: u8, lo: u8) -> u16 {
    (hi as u16 * 256 + lo as u16) as u16
}

/// The more significant byte of a 16-bit number.
pub open spec fn high_byte(x: u16) -> u8 {
    (x / 256) as u8
}

/// The less significant byte of a 16-bit number.
pub open spec fn low_byte(x: u16) -> u8 {
    (x % 256) as u8
}

/// What the prefix of a datagram tells.
#[derive(Clone, Copy, Debug, PartialEq, Eq, Structural)]
pub struct Header {
    pub kind: MessageKind,
    pub channel_id: u16,
    /// The synchronization bits of the control byte.
    pub sync: SyncBits,
    /// On a first fragment, the number of bytes of payload and checksum that
    /// the message holds; zero on a continuation.
    pub length: u16,
}

impl Header {
    /// A header holds only the synchronization bits that its kind carries,
    /// and a first fragment announces at least the checksum.
    pub open spec fn well_formed(self) -> bool {
        &&& self.sync == self.kind.carried(self.sync)
        &&& if self.kind == MessageKind::Continuation {
            self.length == 0
        } else {
            self.length >= 4
        }
    }

    /// Number of bytes that the header takes in a datagram.
    pub open spec fn len_of(self) -> nat {
        if self.kind == MessageKind::Continuation {
            3
        } else {
            5
        }
    }

    /// The header as it stands in a datagram.
    pub open spec fn bytes(self) -> Seq<u8> {
        let control = control_byte_of(self.kind, self.sync);
        if self.kind == MessageKind::Continuation {
            seq![control, high_byte(self.channel_id), low_byte(self.channel_id)]
        } else {
            seq![
                control,
                high_byte(self.channel_id),
                low_byte(self.channel_id),
                high_byte(self.length),
                low_byte(self.length),
            ]
        }
    }

    /// The header that a datagram starts with, if it starts with one: the
    /// datagram is long enough, its control byte tells a kind, and a first
    /// fragment announces at least the checksum.
    pub open spec fn parse_spec(datagram: Seq<u8>) -> Option<Header> {
        if datagram.len() < 3 {
            None
        } else {
            match kind_of_byte(datagram[0]) {
                None => None,
                Some(MessageKind::Continuation) => Some(
                    Header {
                        kind: MessageKind::Continuation,
                        channel_id: be16(datagram[1], datagram[2]),
                        sync: SyncBits { seq_bit: false, ack_bit: false },
                        length: 0,
                    },
                ),
                Some(kind) => if datagram.len() < 5 || be16(datagram[3], datagram[4]) < 4 {
                    None
                } else {
                    Some(
                        Header {
                            kind,
                            channel_id: be16(datagram[1], datagram[2]),
                            sync: kind.carried(SyncBits::of_byte(datagram[0])),
                            length: be16(datagram[3], datagram[4]),
                        },
                    )
                },
            }
        }
    }

    /// The header of `kind` on `channel_id` for a message without payload,
    /// with both synchronization bits cleared.
    pub open spec fn blank(kind: MessageKind, channel_id: u16) -> Header {
        Header {
            kind,
            channel_id,
            sync: SyncBits { seq_bit: false, ack_bit: false },
            length: if kind == MessageKind::Continuation {
                0
            } else {
                4
            },
        }
    }

    /// Whether a header of this kind can announce a payload of `payload_len` bytes.
    pub open spec fn can_carry(self, payload_len: nat) -> bool {
        self.kind != MessageKind::Continuation && payload_len <= MAX_PAYLOAD_LEN
    }

    /// This header for a message of `payload_len` bytes stamped with `bits`.
    pub open spec fn stamped(self, bits: SyncBits, payload_len: nat) -> Header {
        Header { sync: self.kind.carried(bits), length: (payload_len + 4) as u16, ..self }
    }

    /// The header of a channel allocation request, which belongs to no channel yet.
    pub fn new_channel_request() -> (r: Header)
        ensures
            r == Self::blank(MessageKind::ChannelAllocationRequest, BROADCAST_CHANNEL_ID),
            r.well_formed(),
    {
        Header {
            kind: MessageKind::ChannelAllocationRequest,
            channel_id: BROADCAST_CHANNEL_ID,
            sync: SyncBits { seq_bit: false, ack_bit: false },
            length: 4,
        }
    }

    /// The header of a handshake message.
    pub fn new_handshake(channel_id: u16, message: HandshakeMessage) -> (r: Header)
        ensures
            r == Self::blank(MessageKind::Handshake(message), channel_id),
            r.well_formed(),
    {
        Header {
            kind: MessageKind::Handshake(message),
            channel_id,
            sync: SyncBits { seq_bit: false, ack_bit: false },
            length: 4,
        }
    }

    /// The header of an acknowledgment, a message without payload.
    pub fn new_ack(channel_id: u16) -> (r: Header)
        ensures
            r == Self::blank(MessageKind::Ack, channel_id),
            r.well_formed(),
    {
        Header {
            kind: MessageKind::Ack,
            channel_id,
            sync: SyncBits { seq_bit: false, ack_bit: false },
            length: 4,
        }
    }

    /// The header of application data.
    pub fn new_data(channel_id: u16) -> (r: Header)
        ensures
            r == Self::blank(MessageKind::EncryptedTransport, channel_id),
            r.well_formed(),
    {
        Header {
            kind: MessageKind::EncryptedTransport,
            channel_id,
            sync: SyncBits { seq_bit: false, ack_bit: false },
            length: 4,
        }
    }

    /// The header of an error report.
    pub fn new_error(channel_id: u16) -> (r: Header)
        ensures
            r == Self::blank(MessageKind::TransportError, channel_id),
            r.well_formed(),
    {
        Header {
            kind: MessageKind::TransportError,
            channel_id,
            sync: SyncBits { seq_bit: false, ack_bit: false },
            length: 4,
        }
    }

    /// The header of the continuation fragments of a message on `channel_id`.
    pub fn new_continuation(channel_id: u16) -> (r: Header)
        ensures
            r == Self::blank(MessageKind::Continuation, channel_id),
            r.well_formed(),
    {
        Header {
            kind: MessageKind::Continuation,
            channel_id,
            sync: SyncBits { seq_bit: false, ack_bit: false },
            length: 0,
        }
    }

    /// The header for a message of `payload_len` bytes stamped with `bits`.
    /// A continuation announces no message, and the length field has to hold
    /// the payload and its checksum: otherwise the input is unexpected.
    pub fn with_payload(self, bits: SyncBits, payload_len: usize) -> (r: Result<Header, Error>)
        ensures
            !self.can_carry(payload_len as nat) ==> r == Err::<Header, Error>(Error::UnexpectedInput),
            self.can_carry(payload_len as nat) ==> r == Ok::<Header, Error>(
                self.stamped(bits, payload_len as nat),
            ) && r->Ok_0.well_formed() && r->Ok_0.kind != MessageKind::Continuation && r->Ok_0.length
                == payload_len + 4,
    {
        match self.kind {
            MessageKind::Continuation => Err(Error::UnexpectedInput),
            MessageKind::Ack => if payload_len > MAX_PAYLOAD_LEN {
                Err(Error::UnexpectedInput)
            } else {
                Ok(
                    Header {
                        kind: self.kind,
                        channel_id: self.channel_id,
                        sync: SyncBits { seq_bit: false, ack_bit: bits.ack_bit },
                        length: (payload_len + 4) as u16,
                    },
                )
            },
            _ => if payload_len > MAX_PAYLOAD_LEN {
                Err(Error::UnexpectedInput)
            } else {
                Ok(
                    Header {
                        kind: self.kind,
                        channel_id: self.channel_id,
                        sync: bits,
                        length: (payload_len + 4) as u16,
                    },
                )
            },
        }
    }

    pub fn is_continuation(&self) -> (r: bool)
        ensures
            r == (self.kind == MessageKind::Continuation),
    {
        matches!(self.kind, MessageKind::Continuation)
    }

    pub fn is_ack(&self) -> (r: bool)
        ensures
            r == (self.kind == MessageKind::Ack),
    {
        matches!(self.kind, MessageKind::Ack)
    }

    pub fn is_error(&self) -> (r: bool)
        ensures
            r == (self.kind == MessageKind::TransportError),
    {
        matches!(self.kind, MessageKind::TransportError)
    }

    /// Number of bytes that the header takes in a datagram.
    pub fn len(&self) -> (r: usize)
        ensures
            r == self.len_of(),
    {
        if self.is_continuation() {
            CONTINUATION_HEADER_LEN
        } else {
            INITIAL_HEADER_LEN
        }
    }

    /// Number of payload bytes that the header announces, the checksum left out.
    pub fn payload_len(&self) -> (r: usize)
        ensures
            r == if self.length >= 4 {
                self.length - 4
            } else {
                0
            },
    {
        if self.length >= 4 {
            (self.length - 4) as usize
        } else {
            0
        }
    }

    /// Writes the header at the front of `dest` and returns its length.
    /// A `dest` that is shorter than the header is left as it is.
    pub fn encode(&self, dest: &mut [u8]) -> (r: Result<usize, Error>)
        ensures
            old(dest)@.len() < self.len_of() ==> r == Err::<usize, Error>(Error::InsufficientBuffer)
                && final(dest)@ == old(dest)@,
            old(dest)@.len() >= self.len_of() ==> r == Ok::<usize, Error>(self.len_of() as usize)
                && final(dest)@ == self.bytes() + old(dest)@.skip(self.len_of() as int),
    {
        let n: usize = self.len();
        if dest.len() < n {
            return Err(Error::InsufficientBuffer);
        }
        dest[0] = ControlByte::new(self.kind, self.sync).byte;
        dest[1] = (self.channel_id / 256) as u8;
        dest[2] = (self.channel_id % 256) as u8;
        if n == INITIAL_HEADER_LEN {
            dest[3] = (self.length / 256) as u8;
            dest[4] = (self.length % 256) as u8;
        }
        assert(dest@ =~= self.bytes() + old(dest)@.skip(self.len_of() as int));
        Ok(n)
    }

    /// Reads the header that `datagram` starts with. A datagram that starts
    /// with none is malformed.
    pub fn parse(datagram: &[u8]) -> (r: Result<Header, Error>)
        ensures
            r == match Self::parse_spec(datagram@) {
                Some(h) => Ok::<Header, Error>(h),
                None => Err::<Header, Error>(Error::MalformedData),
            },
            r is Ok ==> r->Ok_0.well_formed() && r->Ok_0.len_of() <= datagram@.len(),
    {
        if datagram.len() < CONTINUATION_HEADER_LEN {
            return Err(Error::MalformedData);
        }
        let control = ControlByte::from(datagram[0]);
        let channel_id: u16 = (datagram[1] as u16) * 256 + (datagram[2] as u16);
        match control.kind() {
            None => Err(Error::MalformedData),
            Some(MessageKind::Continuation) => Ok(
                Header {
                    kind: MessageKind::Continuation,
                    channel_id,
                    sync: SyncBits { seq_bit: false, ack_bit: false },
                    length: 0,
                },
            ),
            Some(kind) => {
                if datagram.len() < INITIAL_HEADER_LEN {
                    return Err(Error::MalformedData);
                }
                let length: u16 = (datagram[3] as u16) * 256 + (datagram[4] as u16);
                if length < 4 {
                    return Err(Error::MalformedData);
                }
                let bits = control.sync_bits();
                let sync = match kind {
                    MessageKind::Ack => SyncBits { seq_bit: false, ack_bit: bits.ack_bit },
                    _ => bits,
                };
                Ok(Header { kind, channel_id, sync, length })
            },
        }
    }
}

/// A well-formed header is read back from any datagram that starts with its bytes.
pub proof fn lemma_parse_bytes(header: Header, rest: Seq<u8>)
    requires
        header.well_formed(),
    ensures
        Header::parse_spec(header.bytes() + rest) == Some(header),
        header.bytes().len() == header.len_of(),
{
    let datagram = header.bytes() + rest;
    lemma_control_byte_roundtrip(header.kind, header.sync);
    assert(datagram[0] == control_byte_of(header.kind, header.sync));
    assert(datagram[1] == high_byte(header.channel_id));
    assert(datagram[2] == low_byte(header.channel_id));
    if header.kind != MessageKind::Continuation {
        assert(datagram[3] == high_byte(header.length));
        assert(datagram[4] == low_byte(header.length));
    }
}

/// Reads a 16-bit number, most significant byte first, off the front of
/// `payload`, and returns it with the bytes that follow.
pub fn parse_u16(payload: &[u8]) -> (r: Result<(u16, &[u8]), Error>)
    ensures
        payload@.len() < 2 ==> r == Err::<(u16, &[u8]), Error>(Error::MalformedData),
        payload@.len() >= 2 ==> r is Ok && r->Ok_0.0 == be16(payload@[0], payload@[1]) && r->Ok_0.1@
            == payload@.skip(2),
{
    if payload.len() < 2 {
        return Err(Error::MalformedData);
    }
    let value: u16 = (payload[0] as u16) * 256 + (payload[1] as u16);
    let rest = slice_subrange(payload, 2, payload.len());
    assert(rest@ =~= payload@.skip(2));
    Ok((value, rest))
}

} // verus!
