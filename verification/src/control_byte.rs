//! The first byte of every datagram: continuation flag, message kind and the
//! two synchronization bits.
//!
//! Bits are counted in transmission order, so the first bit of the byte, the
//! continuation flag, has mask `0x80`. A first fragment carries the kind of
//! its message in the bits that `0xE7` selects, the sequence bit at `0x10` and
//! the acknowledgment bit at `0x08`. An acknowledgment carries no sequence bit.

use vstd::prelude::*;
use crate::alternating_bit::{lemma_mask_roundtrip, SyncBits};

verus! {

/// Mask of the continuation flag.
pub const CONTINUATION_MASK: u8 = 0x80;

/// Mask of the bits that tell the kind of a message.
pub const KIND_MASK: u8 = 0xE7;

/// Mask of the bits that tell an acknowledgment from every other kind.
pub const ACK_MASK: u8 = 0xF7;

/// The four messages of the handshake.
#[derive(Clone, Copy, Debug, PartialEq, Eq, Structural)]
pub enum HandshakeMessage {
    InitiationRequest,
    InitiationResponse,
    CompletionRequest,
    CompletionResponse,
}

/// What a datagram is, as its control byte tells it.
#[derive(Clone, Copy, Debug, PartialEq, Eq, Structural)]
pub enum MessageKind {
    /// A further fragment of a message that was started before.
    Continuation,
    /// An empty message that acknowledges a received one.
    Ack,
    ChannelAllocationRequest,
    ChannelAllocationResponse,
    /// An error code of the transport.
    TransportError,
    Handshake(HandshakeMessage),
    /// Application data under the transport ciphers.
    EncryptedTransport,
}

impl MessageKind {
    /// The control byte of this kind with both synchronization bits cleared.
    pub open spec fn code_of(self) -> u8 {
        match self {
            MessageKind::Continuation => 0x80,
            MessageKind::Ack => 0x20,
            MessageKind::ChannelAllocationRequest => 0x40,
            MessageKind::ChannelAllocationResponse => 0x41,
            MessageKind::TransportError => 0x42,
            MessageKind::Handshake(HandshakeMessage::InitiationRequest) => 0x00,
            MessageKind::Handshake(HandshakeMessage::InitiationResponse) => 0x01,
            MessageKind::Handshake(HandshakeMessage::CompletionRequest) => 0x02,
            MessageKind::Handshake(HandshakeMessage::CompletionResponse) => 0x03,
            MessageKind::EncryptedTransport => 0x04,
        }
    }

    /// The synchronization bits that a datagram of this kind can carry, out
    /// of `bits`: none on a continuation, no sequence bit on an acknowledgment.
    pub open spec fn carried(self, bits: SyncBits) -> SyncBits {
        match self {
            MessageKind::Continuation => SyncBits { seq_bit: false, ack_bit: false },
            MessageKind::Ack => SyncBits { seq_bit: false, ack_bit: bits.ack_bit },
            _ => bits,
        }
    }

    /// The control byte of this kind with both synchronization bits cleared.
    pub fn code(self) -> (r: u8)
        ensures
            r == self.code_of(),
    {
        match self {
            MessageKind::Continuation => 0x80,
            MessageKind::Ack => 0x20,
            MessageKind::ChannelAllocationRequest => 0x40,
            MessageKind::ChannelAllocationResponse => 0x41,
            MessageKind::TransportError => 0x42,
            MessageKind::Handshake(HandshakeMessage::InitiationRequest) => 0x00,
            MessageKind::Handshake(HandshakeMessage::InitiationResponse) => 0x01,
            MessageKind::Handshake(HandshakeMessage::CompletionRequest) => 0x02,
            MessageKind::Handshake(HandshakeMessage::CompletionResponse) => 0x03,
            MessageKind::EncryptedTransport => 0x04,
        }
    }
}

/// The kind that a control byte tells, if it tells one.
pub open spec fn kind_of_byte(byte: u8) -> Option<MessageKind> {
    if byte & 0x80 != 0 {
        Some(MessageKind::Continuation)
    } else if byte & 0xF7 == 0x20 {
        Some(MessageKind::Ack)
    } else if byte & 0xE7 == 0x40 {
        Some(MessageKind::ChannelAllocationRequest)
    } else if byte & 0xE7 == 0x41 {
        Some(MessageKind::ChannelAllocationResponse)
    } else if byte & 0xE7 == 0x42 {
        Some(MessageKind::TransportError)
    } else if byte & 0xE7 == 0x00 {
        Some(MessageKind::Handshake(HandshakeMessage::InitiationRequest))
    } else if byte & 0xE7 == 0x01 {
        Some(MessageKind::Handshake(HandshakeMessage::InitiationResponse))
    } else if byte & 0xE7 == 0x02 {
        Some(MessageKind::Handshake(HandshakeMessage::CompletionRequest))
    } else if byte & 0xE7 == 0x03 {
        Some(MessageKind::Handshake(HandshakeMessage::CompletionResponse))
    } else if byte & 0xE7 == 0x04 {
        Some(MessageKind::EncryptedTransport)
    } else {
        None
    }
}

/// The control byte of a datagram of `kind` stamped with `bits`.
pub open spec fn control_byte_of(kind: MessageKind, bits: SyncBits) -> u8 {
    kind.code_of() | kind.carried(bits).mask_of()
}

/// A control byte tells the kind it was built for, and the synchronization
/// bits that the kind carries.
pub proof fn lemma_control_byte_roundtrip(kind: MessageKind, bits: SyncBits)
    ensures
        kind_of_byte(control_byte_of(kind, bits)) == Some(kind),
        SyncBits::of_byte(control_byte_of(kind, bits)) == kind.carried(bits),
{
    let carried = kind.carried(bits);
    let m: u8 = carried.mask_of();
    let c: u8 = kind.code_of();
    let r: u8 = c | m;
    lemma_mask_roundtrip(carried);
    assert(r & 0x10 == m & 0x10 && r & 0x08 == m & 0x08) by {
        assert(m & 0xE7 == 0 && (c == 0x40 || c == 0x41 || c == 0x42 || c == 0x00 || c == 0x01 || c
            == 0x02 || c == 0x03 || c == 0x04 || c == 0x20 || c == 0x80) ==> (c | m) & 0x10 == m
            & 0x10 && (c | m) & 0x08 == m & 0x08) by (bit_vector);
    }
    assert(c != 0x80 && c != 0x20 ==> r & 0x80 == 0 && r & 0xF7 != 0x20 && r & 0xE7 == c) by {
        assert(m & 0xE7 == 0 && m & 0x80 == 0 && (c == 0x40 || c == 0x41 || c == 0x42 || c == 0x00
            || c == 0x01 || c == 0x02 || c == 0x03 || c == 0x04) ==> (c | m) & 0x80 == 0 && (c | m)
            & 0xF7 != 0x20 && (c | m) & 0xE7 == c) by (bit_vector);
    }
    assert(c == 0x20 ==> r & 0x80 == 0 && r & 0xF7 == 0x20) by {
        assert(m & 0xE7 == 0 && m & 0x10 == 0 && c == 0x20 ==> (c | m) & 0x80 == 0 && (c | m) & 0xF7
            == 0x20) by (bit_vector);
    }
    assert(c == 0x80 ==> r & 0x80 != 0) by {
        assert(c == 0x80 ==> (c | m) & 0x80 != 0) by (bit_vector);
    }
    assert(kind_of_byte(r) == Some(kind));
    assert(SyncBits::of_byte(r) == carried);
}

/// A control byte as received.
#[derive(Clone, Copy, Debug, PartialEq, Eq, Structural)]
pub struct ControlByte {
    pub byte: u8,
}

impl ControlByte {
    pub fn from(byte: u8) -> (r: ControlByte)
        ensures
            r.byte == byte,
    {
        ControlByte { byte }
    }

    /// Builds the control byte of a datagram of `kind` stamped with `bits`.
    /// Read back, it tells the same kind and the bits that the kind carries.
    pub fn new(kind: MessageKind, bits: SyncBits) -> (r: ControlByte)
        ensures
            r.byte == control_byte_of(kind, bits),
            kind_of_byte(r.byte) == Some(kind),
            SyncBits::of_byte(r.byte) == kind.carried(bits),
    {
        proof {
            lemma_control_byte_roundtrip(kind, bits);
        }
        let carried = match kind {
            MessageKind::Continuation => SyncBits { seq_bit: false, ack_bit: false },
            MessageKind::Ack => SyncBits { seq_bit: false, ack_bit: bits.ack_bit },
            _ => bits,
        };
        ControlByte { byte: kind.code() | carried.mask() }
    }

    /// Whether the datagram continues a message that was started before.
    pub fn is_continuation(&self) -> (r: bool)
        ensures
            r == (self.byte & 0x80 != 0),
            r == (kind_of_byte(self.byte) == Some(MessageKind::Continuation)),
    {
        self.byte & CONTINUATION_MASK != 0
    }

    /// Whether the datagram starts an acknowledgment.
    pub fn is_ack(&self) -> (r: bool)
        ensures
            r == (kind_of_byte(self.byte) == Some(MessageKind::Ack)),
    {
        self.byte & CONTINUATION_MASK == 0 && self.byte & ACK_MASK == 0x20
    }

    /// Whether the datagram starts an error report.
    pub fn is_error(&self) -> (r: bool)
        ensures
            r == (kind_of_byte(self.byte) == Some(MessageKind::TransportError)),
    {
        let b: u8 = self.byte;
        assert(b & 0xE7 == 0x42 ==> b & 0xF7 != 0x20) by (bit_vector);
        self.byte & CONTINUATION_MASK == 0 && self.byte & KIND_MASK == 0x42
    }

    /// The synchronization bits of the datagram.
    pub fn sync_bits(&self) -> (r: SyncBits)
        ensures
            r == SyncBits::of_byte(self.byte),
    {
        SyncBits::from(self.byte)
    }

    /// The kind of the datagram; `None` for a byte that tells no kind.
    pub fn kind(&self) -> (r: Option<MessageKind>)
        ensures
            r == kind_of_byte(self.byte),
    {
        let b: u8 = self.byte;
        if b & CONTINUATION_MASK != 0 {
            Some(MessageKind::Continuation)
        } else if b & ACK_MASK == 0x20 {
            Some(MessageKind::Ack)
        } else {
            let k: u8 = b & KIND_MASK;
            if k == 0x40 {
                Some(MessageKind::ChannelAllocationRequest)
            } else if k == 0x41 {
                Some(MessageKind::ChannelAllocationResponse)
            } else if k == 0x42 {
                Some(MessageKind::TransportError)
            } else if k == 0x00 {
                Some(MessageKind::Handshake(HandshakeMessage::InitiationRequest))
            } else if k == 0x01 {
                Some(MessageKind::Handshake(HandshakeMessage::InitiationResponse))
            } else if k == 0x02 {
                Some(MessageKind::Handshake(HandshakeMessage::CompletionRequest))
            } else if k == 0x03 {
                Some(MessageKind::Handshake(HandshakeMessage::CompletionResponse))
            } else if k == 0x04 {
                Some(MessageKind::EncryptedTransport)
            } else {
                None
            }
        }
    }
}

} // verus!
