//! Alternating-bit bookkeeping: one unacknowledged message in flight per
//! direction, duplicates told apart by a single bit.

use vstd::prelude::*;

verus! {

/// The two synchronization bits that a datagram carries.
#[derive(Clone, Copy, Debug, PartialEq, Eq, Structural)]
pub struct SyncBits {
    /// The bit that numbers the message of the sender.
    pub seq_bit: bool,
    /// The bit of the message that this datagram acknowledges.
    pub ack_bit: bool,
}

/// Position of the sequence bit in a control byte.
pub const SEQ_BIT_MASK: u8 = 0x10;

/// Position of the acknowledgment bit in a control byte.
pub const ACK_BIT_MASK: u8 = 0x08;

impl SyncBits {
    /// Both bits as they stand in a control byte.
    pub open spec fn mask_of(self) -> u8 {
        (if self.seq_bit { 0x10u8 } else { 0u8 }) | (if self.ack_bit { 0x08u8 } else { 0u8 })
    }

    /// The bits that a control byte carries.
    pub open spec fn of_byte(byte: u8) -> SyncBits {
        SyncBits { seq_bit: byte & 0x10 != 0, ack_bit: byte & 0x08 != 0 }
    }

    /// Both bits cleared.
    pub fn new() -> (r: SyncBits)
        ensures
            r == (SyncBits { seq_bit: false, ack_bit: false }),
    {
        SyncBits { seq_bit: false, ack_bit: false }
    }

    /// Reads the bits out of a control byte.
    pub fn from(byte: u8) -> (r: SyncBits)
        ensures
            r == Self::of_byte(byte),
    {
        SyncBits { seq_bit: byte & SEQ_BIT_MASK != 0, ack_bit: byte & ACK_BIT_MASK != 0 }
    }

    /// The bits placed where a control byte holds them.
    pub fn mask(self) -> (r: u8)
        ensures
            r == self.mask_of(),
            r & 0xE7 == 0,
            Self::of_byte(r) == self,
    {
        let s: u8 = if self.seq_bit { SEQ_BIT_MASK } else { 0 };
        let a: u8 = if self.ack_bit { ACK_BIT_MASK } else { 0 };
        proof {
            lemma_mask_roundtrip(self);
        }
        s | a
    }
}

/// The two bits stand apart from the bits that tell the kind of a message,
/// and read back as they were placed.
pub proof fn lemma_mask_roundtrip(bits: SyncBits)
    ensures
        bits.mask_of() & 0xE7 == 0,
        bits.mask_of() & 0x80 == 0,
        SyncBits::of_byte(bits.mask_of()) == bits,
        !bits.seq_bit ==> bits.mask_of() & 0x10 == 0,
{
    assert((0x10u8 | 0x08u8) & 0xE7 == 0 && (0x10u8 | 0u8) & 0xE7 == 0 && (0u8 | 0x08u8) & 0xE7 == 0
        && (0u8 | 0u8) & 0xE7 == 0) by (bit_vector);
    assert((0x10u8 | 0x08u8) & 0x80 == 0 && (0x10u8 | 0u8) & 0x80 == 0 && (0u8 | 0x08u8) & 0x80 == 0
        && (0u8 | 0u8) & 0x80 == 0) by (bit_vector);
    assert((0x10u8 | 0x08u8) & 0x10 != 0 && (0x10u8 | 0x08u8) & 0x08 != 0 && (0x10u8 | 0u8) & 0x10 != 0
        && (0x10u8 | 0u8) & 0x08 == 0 && (0u8 | 0x08u8) & 0x10 == 0 && (0u8 | 0x08u8) & 0x08 != 0
        && (0u8 | 0u8) & 0x10 == 0 && (0u8 | 0u8) & 0x08 == 0) by (bit_vector);
}

/// Alternating-bit state of one channel.
#[derive(Clone, Copy, Debug, PartialEq, Eq, Structural)]
pub struct ChannelSync {
    /// The bit of the next message that this side originates.
    pub send_bit: bool,
    /// The bit of the last message accepted from the peer.
    pub last_received: bool,
    /// A message was started and is not acknowledged yet.
    pub outstanding: bool,
    /// All fragments of the outstanding message were handed out.
    pub transmitted: bool,
    /// An accepted message has not been acknowledged to the peer yet.
    pub ack_owed: bool,
}

impl ChannelSync {
    /// The tracker of a fresh channel: nothing in flight, both directions
    /// start at bit zero.
    pub open spec fn initial() -> ChannelSync {
        ChannelSync {
            send_bit: false,
            last_received: true,
            outstanding: false,
            transmitted: false,
            ack_owed: false,
        }
    }

    /// Whether a message stamped `bits` is new to this tracker.
    pub open spec fn accepts(self, bits: SyncBits) -> bool {
        bits.seq_bit != self.last_received
    }

    /// Whether `bits` acknowledge the message in flight.
    pub open spec fn acknowledges(self, bits: SyncBits) -> bool {
        self.outstanding && bits.ack_bit == self.send_bit
    }

    /// The tracker after a message stamped `bits` arrived.
    pub open spec fn after_receive(self, bits: SyncBits) -> ChannelSync {
        if self.accepts(bits) {
            ChannelSync { last_received: bits.seq_bit, ack_owed: true, ..self }
        } else {
            self
        }
    }

    /// The tracker after an acknowledgment stamped `bits` arrived.
    pub open spec fn after_delivery(self, bits: SyncBits) -> ChannelSync {
        if self.acknowledges(bits) {
            ChannelSync { send_bit: !self.send_bit, outstanding: false, transmitted: false, ..self }
        } else {
            self
        }
    }

    pub fn new() -> (r: ChannelSync)
        ensures
            r == Self::initial(),
    {
        ChannelSync {
            send_bit: false,
            last_received: true,
            outstanding: false,
            transmitted: false,
            ack_owed: false,
        }
    }

    /// Starts a message: hands out the bits to stamp on it, unless an
    /// earlier message is still unacknowledged.
    pub fn send_start(&mut self) -> (r: Option<SyncBits>)
        ensures
            old(self).outstanding ==> r is None && *final(self) == *old(self),
            !old(self).outstanding ==> r == Some(
                SyncBits { seq_bit: old(self).send_bit, ack_bit: false },
            ) && *final(self) == (ChannelSync { outstanding: true, transmitted: false, ..*old(self) }),
    {
        if self.outstanding {
            return None;
        }
        self.outstanding = true;
        self.transmitted = false;
        Some(SyncBits { seq_bit: self.send_bit, ack_bit: false })
    }

    /// Records that the message in flight was handed out completely.
    pub fn send_finish(&mut self)
        ensures
            *final(self) == (ChannelSync { transmitted: old(self).outstanding, ..*old(self) }),
    {
        self.transmitted = self.outstanding;
    }

    /// Takes an acknowledgment of the peer. Only one that echoes the bit of
    /// the message in flight clears it and flips the bit for the next one.
    pub fn send_mark_delivered(&mut self, bits: SyncBits) -> (r: bool)
        ensures
            r == old(self).acknowledges(bits),
            *final(self) == old(self).after_delivery(bits),
            !r ==> final(self).outstanding == old(self).outstanding,
    {
        if self.outstanding && bits.ack_bit == self.send_bit {
            self.send_bit = !self.send_bit;
            self.outstanding = false;
            self.transmitted = false;
            true
        } else {
            false
        }
    }

    /// Takes the first fragment of a message of the peer: true if the message
    /// is new, false if it repeats the last accepted one.
    pub fn receive_start(&mut self, bits: SyncBits) -> (r: bool)
        ensures
            r == old(self).accepts(bits),
            *final(self) == old(self).after_receive(bits),
            r ==> final(self).last_received == bits.seq_bit,
            !final(self).accepts(bits),
    {
        if bits.seq_bit != self.last_received {
            self.last_received = bits.seq_bit;
            self.ack_owed = true;
            true
        } else {
            false
        }
    }

    /// The bits that acknowledge the last accepted message.
    pub fn receive_acknowledge(&mut self) -> (r: SyncBits)
        ensures
            r == (SyncBits { seq_bit: false, ack_bit: old(self).last_received }),
            *final(self) == (ChannelSync { ack_owed: false, ..*old(self) }),
    {
        self.ack_owed = false;
        SyncBits { seq_bit: false, ack_bit: self.last_received }
    }
}

/// After a message stamped `bits` was taken, whether as new or as a repeat,
/// the same bits are a repeat; only the other sequence bit is new.
pub proof fn lemma_duplicate_suppression(sync: ChannelSync, bits: SyncBits, next: SyncBits)
    ensures
        !sync.after_receive(bits).accepts(bits),
        sync.after_receive(bits).accepts(next) <==> next.seq_bit != bits.seq_bit,
        sync.after_receive(bits).after_receive(bits) == sync.after_receive(bits),
{
}

/// An acknowledgment that does not echo the bit in flight changes nothing:
/// the message stays outstanding.
pub proof fn lemma_mismatched_ack_keeps_outstanding(sync: ChannelSync, bits: SyncBits)
    requires
        sync.outstanding,
        bits.ack_bit != sync.send_bit,
    ensures
        !sync.acknowledges(bits),
        sync.after_delivery(bits) == sync,
        sync.after_delivery(bits).outstanding,
{
}

} // verus!
