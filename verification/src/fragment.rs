//! Carving a message into datagrams, and putting it together again.
//!
//! A message travels as its payload followed by the CRC-32 of the first
//! header and the payload. The first datagram starts with the full header,
//! every further one with a continuation header; what is left of a datagram
//! after the last byte of the message is zero.

use vstd::prelude::*;
use vstd::slice::slice_subrange;
use crate::alternating_bit::SyncBits;
use crate::buffer::repeated;
use crate::control_byte::MessageKind;
use crate::crc32::{checksum_of_two, crc32, crc32_bytes, to_bytes, word_bytes};
use crate::error::Error;
use crate::header::{lemma_parse_bytes, Header, CONTINUATION_HEADER_LEN, INITIAL_HEADER_LEN};

verus! {

/// The shortest datagram that a fragmenter fills: a full header and one byte.
pub const MIN_FRAGMENT_LEN: usize = 6;

pub open spec fn min_of(a: int, b: int) -> int {
    if a <= b {
        a
    } else {
        b
    }
}

/// What follows the headers over all datagrams of a message: the payload,
/// then the checksum of the first header and the payload.
pub open spec fn message_stream(header: Header, payload: Seq<u8>) -> Seq<u8> {
    payload + crc32_bytes(header.bytes() + payload)
}

/// The header of the datagram that carries a message from `offset` on.
pub open spec fn header_at(header: Header, offset: int) -> Header {
    if offset == 0 {
        header
    } else {
        Header::blank(MessageKind::Continuation, header.channel_id)
    }
}

/// Number of bytes of a message that the datagram at `offset` carries.
pub open spec fn chunk_len(header: Header, total: int, offset: int, packet_len: int) -> int {
    min_of(total - offset, packet_len - header_at(header, offset).len_of())
}

/// The datagram of `packet_len` bytes that carries `stream` from `offset` on.
pub open spec fn fragment_at(header: Header, stream: Seq<u8>, offset: int, packet_len: int) -> Seq<
    u8,
> {
    let h = header_at(header, offset);
    let n = chunk_len(header, stream.len() as int, offset, packet_len);
    h.bytes() + stream.subrange(offset, offset + n) + repeated(0, packet_len - h.len_of() - n)
}

/// The datagrams of `packet_len` bytes that carry `stream` from `offset` on, in order.
pub open spec fn fragments(header: Header, stream: Seq<u8>, offset: int, packet_len: int) -> Seq<
    Seq<u8>,
>
    decreases stream.len() - offset,
{
    if 0 <= offset < stream.len() && packet_len >= 6 {
        seq![fragment_at(header, stream, offset, packet_len)] + fragments(
            header,
            stream,
            offset + chunk_len(header, stream.len() as int, offset, packet_len),
            packet_len,
        )
    } else {
        Seq::empty()
    }
}

/// The bytes of a message that `datagram` carries behind a header of
/// `header_len` bytes, when `room` bytes of the message are still missing.
pub open spec fn carried(datagram: Seq<u8>, header_len: int, room: int) -> Seq<u8> {
    datagram.subrange(header_len, header_len + min_of(datagram.len() - header_len, room))
}

/// What a first datagram gives a reassembler whose buffer holds `capacity`
/// bytes: the header and the first bytes of the message. The datagram is
/// malformed if it starts with no header or with that of a continuation, and
/// the buffer insufficient if the message does not fit.
pub open spec fn first_outcome(datagram: Seq<u8>, capacity: int) -> Result<(Header, Seq<u8>), Error> {
    match Header::parse_spec(datagram) {
        None => Err(Error::MalformedData),
        Some(h) => if h.kind == MessageKind::Continuation {
            Err(Error::MalformedData)
        } else if h.length > capacity {
            Err(Error::InsufficientBuffer)
        } else {
            Ok((h, carried(datagram, 5, h.length as int)))
        },
    }
}

/// What a further datagram gives a reassembler that started with `header`
/// and holds `received` bytes: the next bytes of the message. The datagram is
/// malformed unless it is a continuation on the same channel of a message
/// that is still incomplete.
pub open spec fn next_outcome(header: Header, received: int, datagram: Seq<u8>, capacity: int)
    -> Result<Seq<u8>, Error> {
    match Header::parse_spec(datagram) {
        None => Err(Error::MalformedData),
        Some(h) => if h.kind != MessageKind::Continuation || h.channel_id != header.channel_id
            || received >= header.length {
            Err(Error::MalformedData)
        } else if header.length > capacity {
            Err(Error::InsufficientBuffer)
        } else {
            Ok(carried(datagram, 3, header.length - received))
        },
    }
}

/// What the integrity check of a complete message gives: the length of the
/// payload, if the four bytes behind it are the checksum of header and payload.
pub open spec fn verify_outcome(header: Header, received: int, buffer: Seq<u8>) -> Result<
    usize,
    Error,
> {
    if received != header.length || header.length < 4 || buffer.len() < header.length {
        Err(Error::MalformedData)
    } else if buffer.subrange(header.length - 4, header.length as int) != crc32_bytes(
        header.bytes() + buffer.take(header.length - 4),
    ) {
        Err(Error::InvalidDigest)
    } else {
        Ok((header.length - 4) as usize)
    }
}

/// Hands out a message datagram by datagram.
#[derive(Clone, Copy, Debug)]
pub struct Fragmenter {
    header: Header,
    checksum: u32,
    offset: usize,
}

impl Fragmenter {
    #[verifier::type_invariant]
    spec fn inv(self) -> bool {
        &&& self.header.well_formed()
        &&& self.header.kind != MessageKind::Continuation
        &&& self.offset <= self.header.length
    }

    /// The header of the first datagram.
    pub closed spec fn header_of(self) -> Header {
        self.header
    }

    /// The checksum that closes the message.
    pub closed spec fn checksum_of(self) -> u32 {
        self.checksum
    }

    /// Number of bytes of payload and checksum handed out so far.
    pub closed spec fn offset_of(self) -> nat {
        self.offset as nat
    }

    /// The fragmenter of a message under `header` with `checksum` that has
    /// handed out `offset` bytes.
    pub closed spec fn at(header: Header, checksum: u32, offset: nat) -> Fragmenter {
        Fragmenter { header, checksum, offset: offset as usize }
    }

    /// The fragmenter that `at` names has the header, the checksum and the
    /// offset that it was named by.
    pub proof fn lemma_at(header: Header, checksum: u32, offset: nat)
        requires
            offset <= header.length,
        ensures
            Self::at(header, checksum, offset).header_of() == header,
            Self::at(header, checksum, offset).checksum_of() == checksum,
            Self::at(header, checksum, offset).offset_of() == offset,
    {
    }

    /// What follows the headers when the payload is `source`.
    pub open spec fn stream_of(self, source: Seq<u8>) -> Seq<u8> {
        source + word_bytes(self.checksum_of())
    }

    /// Whether the whole message was handed out.
    pub open spec fn done(self) -> bool {
        self.offset_of() == self.header_of().length
    }

    /// Prepares a message: `header` stamped with `bits` and the length of
    /// `payload`, and the checksum over both. A header that cannot announce
    /// the payload is unexpected.
    pub fn new(header: Header, bits: SyncBits, payload: &[u8]) -> (r: Result<Fragmenter, Error>)
        ensures
            !header.can_carry(payload@.len()) ==> r is Err && r->Err_0 == Error::UnexpectedInput,
            header.can_carry(payload@.len()) ==> r is Ok && r->Ok_0.header_of() == header.stamped(
                bits,
                payload@.len(),
            ) && r->Ok_0.offset_of() == 0 && r->Ok_0.stream_of(payload@) == message_stream(
                r->Ok_0.header_of(),
                payload@,
            ) && r->Ok_0 == Fragmenter::at(
                header.stamped(bits, payload@.len()),
                crc32(header.stamped(bits, payload@.len()).bytes() + payload@),
                0,
            ),
    {
        let header = match header.with_payload(bits, payload.len()) {
            Ok(h) => h,
            Err(e) => {
                return Err(e);
            },
        };
        let mut prefix = [0u8; 5];
        let _ = header.encode(&mut prefix);
        assert(prefix@ =~= header.bytes());
        let checksum = checksum_of_two(prefix.as_slice(), payload);
        Ok(Fragmenter { header, checksum, offset: 0 })
    }

    /// Whether the whole message was handed out.
    pub fn is_done(&self) -> (r: bool)
        ensures
            r == self.done(),
    {
        proof {
            use_type_invariant(self);
        }
        self.offset == self.header.length as usize
    }

    /// The header of the first datagram.
    pub fn header(&self) -> (r: Header)
        ensures
            r == self.header_of(),
    {
        self.header
    }

    /// Fills `dest` with the next datagram of the message whose payload is
    /// `source`, and returns true. Once the message is complete nothing is
    /// written and false comes back. A `source` of another length than the
    /// one announced is unexpected; a `dest` under `MIN_FRAGMENT_LEN` bytes is
    /// insufficient. Whenever nothing is written, nothing changes.
    pub fn next(&mut self, source: &[u8], dest: &mut [u8]) -> (r: Result<bool, Error>)
        ensures
            final(dest)@.len() == old(dest)@.len(),
            final(self).header_of() == old(self).header_of(),
            final(self).checksum_of() == old(self).checksum_of(),
            old(self).done() ==> r == Ok::<bool, Error>(false),
            !old(self).done() && source@.len() + 4 != old(self).header_of().length ==> r == Err::<
                bool,
                Error,
            >(Error::UnexpectedInput),
            !old(self).done() && source@.len() + 4 == old(self).header_of().length && old(dest)@.len()
                < 6 ==> r == Err::<bool, Error>(Error::InsufficientBuffer),
            !old(self).done() && source@.len() + 4 == old(self).header_of().length && old(dest)@.len()
                >= 6 ==> r == Ok::<bool, Error>(true),
            r == Ok::<bool, Error>(true) ==> final(dest)@ == fragment_at(
                old(self).header_of(),
                old(self).stream_of(source@),
                old(self).offset_of() as int,
                old(dest)@.len() as int,
            ) && final(self).offset_of() == old(self).offset_of() + chunk_len(
                old(self).header_of(),
                old(self).header_of().length as int,
                old(self).offset_of() as int,
                old(dest)@.len() as int,
            ),
            r != Ok::<bool, Error>(true) ==> final(dest)@ == old(dest)@ && *final(self) == *old(self),
            *final(self) == Fragmenter::at(
                old(self).header_of(),
                old(self).checksum_of(),
                final(self).offset_of(),
            ),
    {
        proof {
            use_type_invariant(&*self);
        }
        let total: usize = self.header.length as usize;
        if self.offset == total {
            return Ok(false);
        }
        if source.len() > total || total - source.len() != 4 {
            return Err(Error::UnexpectedInput);
        }
        if dest.len() < MIN_FRAGMENT_LEN {
            return Err(Error::InsufficientBuffer);
        }
        let ghost stream = self.stream_of(source@);
        let ghost packet_len = dest@.len() as int;
        let start: usize = self.offset;
        let head = if start == 0 {
            self.header
        } else {
            Header::new_continuation(self.header.channel_id)
        };
        let _ = head.encode(dest);
        let head_len: usize = head.len();
        let room: usize = dest.len() - head_len;
        let count: usize = if total - start < room {
            total - start
        } else {
            room
        };
        let tail = to_bytes(self.checksum);
        let mut k: usize = 0;
        while k < count
            invariant
                k <= count,
                head_len + count <= dest@.len(),
                start + count <= total,
                total == source@.len() + 4,
                dest@.len() == packet_len,
                old(dest)@.len() == packet_len,
                stream == source@ + tail@,
                stream.len() == total,
                dest@ == head.bytes() + stream.subrange(start as int, start + k) + old(dest)@.skip(
                    head_len + k,
                ),
                head.bytes().len() == head_len,
            decreases count - k,
        {
            let j: usize = start + k;
            let byte: u8 = if j < source.len() {
                source[j]
            } else {
                tail[j - source.len()]
            };
            assert(byte == stream[j as int]);
            dest[head_len + k] = byte;
            k += 1;
            assert(dest@ =~= head.bytes() + stream.subrange(start as int, start + k) + old(dest)@.skip(head_len + k));
        }
        let mut z: usize = head_len + count;
        while z < dest.len()
            invariant
                head_len + count <= z <= dest@.len(),
                dest@.len() == packet_len,
                old(dest)@.len() == packet_len,
                start + count <= total,
                stream.len() == total,
                head.bytes().len() == head_len,
                stream.subrange(start as int, start + count).len() == count,
                dest@ == head.bytes() + stream.subrange(start as int, start + count) + repeated(0, 
                    z - head_len - count,
                ) + old(dest)@.skip(z as int),
            decreases dest@.len() - z,
        {
            dest[z] = 0;
            z += 1;
            assert(dest@ =~= head.bytes() + stream.subrange(start as int, start + count) + repeated(0, 
                z - head_len - count,
            ) + old(dest)@.skip(z as int));
        }
        assert(dest@ =~= fragment_at(self.header_of(), stream, start as int, packet_len));
        self.offset = start + count;
        Ok(true)
    }

    /// Writes a message that fits one datagram into `dest`, keeping no state.
    /// A header that cannot announce the payload is unexpected; a `dest` that
    /// does not hold header, payload and checksum is insufficient and left as
    /// it is.
    pub fn single(header: Header, bits: SyncBits, payload: &[u8], dest: &mut [u8]) -> (r: Result<
        (),
        Error,
    >)
        ensures
            final(dest)@.len() == old(dest)@.len(),
            !header.can_carry(payload@.len()) ==> r == Err::<(), Error>(Error::UnexpectedInput),
            header.can_carry(payload@.len()) && old(dest)@.len() < 5 + payload@.len() + 4 ==> r
                == Err::<(), Error>(Error::InsufficientBuffer),
            header.can_carry(payload@.len()) && old(dest)@.len() >= 5 + payload@.len() + 4 ==> r
                == Ok::<(), Error>(()),
            r is Ok ==> final(dest)@ == fragment_at(
                header.stamped(bits, payload@.len()),
                message_stream(header.stamped(bits, payload@.len()), payload@),
                0,
                old(dest)@.len() as int,
            ),
            r is Err ==> final(dest)@ == old(dest)@,
    {
        let mut fragmenter = match Fragmenter::new(header, bits, payload) {
            Ok(f) => f,
            Err(e) => {
                return Err(e);
            },
        };
        if dest.len() < INITIAL_HEADER_LEN + 4 || dest.len() - INITIAL_HEADER_LEN - 4 < payload.len() {
            return Err(Error::InsufficientBuffer);
        }
        match fragmenter.next(payload, dest) {
            Ok(_) => Ok(()),
            Err(e) => Err(e),
        }
    }
}

/// Puts a message together from its datagrams.
#[derive(Clone, Copy, Debug)]
pub struct Reassembler {
    header: Header,
    received: usize,
}

impl Reassembler {
    #[verifier::type_invariant]
    spec fn inv(self) -> bool {
        &&& self.header.well_formed()
        &&& self.header.kind != MessageKind::Continuation
        &&& self.received <= self.header.length
    }

    /// The header of the first datagram.
    pub closed spec fn header_of(self) -> Header {
        self.header
    }

    /// Number of bytes of payload and checksum taken so far.
    pub closed spec fn received_of(self) -> nat {
        self.received as nat
    }

    /// Whether as many bytes were taken as the header announces.
    pub open spec fn done(self) -> bool {
        self.received_of() == self.header_of().length
    }

    /// The reassembler of a message under `header` that has taken `received` bytes.
    pub closed spec fn at(header: Header, received: nat) -> Reassembler {
        Reassembler { header, received: received as usize }
    }

    /// The reassembler that `at` names has the header and the count that it
    /// was named by.
    pub proof fn lemma_at(header: Header, received: nat)
        requires
            received <= header.length,
        ensures
            Self::at(header, received).header_of() == header,
            Self::at(header, received).received_of() == received,
    {
    }

    /// Starts a message with its first datagram: reads the header and puts
    /// the bytes that the datagram carries at the front of `dest`. On an error
    /// `dest` is left as it is.
    pub fn new(first_fragment: &[u8], dest: &mut [u8]) -> (r: Result<Reassembler, Error>)
        ensures
            match first_outcome(first_fragment@, old(dest)@.len() as int) {
                Ok((header, bytes)) => r is Ok && r->Ok_0 == Reassembler::at(header, bytes.len())
                    && r->Ok_0.header_of() == header && r->Ok_0.received_of() == bytes.len() && final(dest)@ == bytes + old(dest)@.skip(bytes.len() as int),
                Err(e) => r is Err && r->Err_0 == e && final(dest)@ == old(dest)@,
            },
    {
        let header = match Header::parse(first_fragment) {
            Ok(h) => h,
            Err(e) => {
                return Err(e);
            },
        };
        if header.is_continuation() {
            return Err(Error::MalformedData);
        }
        let total: usize = header.length as usize;
        if total > dest.len() {
            return Err(Error::InsufficientBuffer);
        }
        let count = copy_carried(first_fragment, INITIAL_HEADER_LEN, dest, 0, total);
        Ok(Reassembler { header, received: count })
    }

    /// Takes a further datagram of the message and puts the bytes that it
    /// carries behind those already in `dest`. On an error nothing changes.
    pub fn update(&mut self, fragment: &[u8], dest: &mut [u8]) -> (r: Result<(), Error>)
        ensures
            final(self).header_of() == old(self).header_of(),
            match next_outcome(
                old(self).header_of(),
                old(self).received_of() as int,
                fragment@,
                old(dest)@.len() as int,
            ) {
                Ok(bytes) => r == Ok::<(), Error>(()) && *final(self) == Reassembler::at(
                    old(self).header_of(),
                    old(self).received_of() + bytes.len(),
                ) && final(self).received_of() == old(self).received_of() + bytes.len() && final(dest)@ == old(dest)@.take(
                    old(self).received_of() as int,
                ) + bytes + old(dest)@.skip((old(self).received_of() + bytes.len()) as int),
                Err(e) => r == Err::<(), Error>(e) && *final(self) == *old(self) && final(dest)@
                    == old(dest)@,
            },
    {
        proof {
            use_type_invariant(&*self);
        }
        let header = match Header::parse(fragment) {
            Ok(h) => h,
            Err(e) => {
                return Err(e);
            },
        };
        let total: usize = self.header.length as usize;
        if !header.is_continuation() || header.channel_id != self.header.channel_id || self.received
            >= total {
            return Err(Error::MalformedData);
        }
        if total > dest.len() {
            return Err(Error::InsufficientBuffer);
        }
        let start: usize = self.received;
        let count = copy_carried(fragment, CONTINUATION_HEADER_LEN, dest, start, total - start);
        self.received = start + count;
        Ok(())
    }

    /// Whether as many bytes were taken as the header announces.
    pub fn is_done(&self) -> (r: bool)
        ensures
            r == self.done(),
            r == (self.received_of() == self.header_of().length),
    {
        self.received == self.header.length as usize
    }

    /// The header of the first datagram.
    pub fn header(&self) -> (r: Header)
        ensures
            r == self.header_of(),
            r.well_formed(),
            r.kind != MessageKind::Continuation,
    {
        proof {
            use_type_invariant(self);
        }
        self.header
    }

    /// Checks the complete message in `dest` against its checksum and
    /// returns the length of the payload. An incomplete message, or a `dest`
    /// shorter than the message, is malformed; a checksum that does not match
    /// is an invalid digest.
    pub fn verify(&self, dest: &[u8]) -> (r: Result<usize, Error>)
        ensures
            r == verify_outcome(self.header_of(), self.received_of() as int, dest@),
            r is Ok ==> r->Ok_0 + 4 == self.header_of().length && r->Ok_0 + 4 <= dest@.len(),
    {
        proof {
            use_type_invariant(self);
        }
        let total: usize = self.header.length as usize;
        if self.received != total || dest.len() < total {
            return Err(Error::MalformedData);
        }
        let payload_len: usize = total - 4;
        let mut prefix = [0u8; 5];
        let _ = self.header.encode(&mut prefix);
        assert(prefix@ =~= self.header.bytes());
        let payload = slice_subrange(dest, 0, payload_len);
        assert(payload@ =~= dest@.take(payload_len as int));
        let expected = to_bytes(checksum_of_two(prefix.as_slice(), payload));
        let mut i: usize = 0;
        while i < 4
            invariant
                i <= 4,
                payload_len + 4 == total,
                total <= dest@.len(),
                expected@.len() == 4,
                self.received == total,
                total == self.header.length,
                expected@ == crc32_bytes(self.header.bytes() + dest@.take(payload_len as int)),
                forall|j: int| 0 <= j < i ==> dest@[payload_len + j] == expected@[j],
            decreases 4 - i,
        {
            if dest[payload_len + i] != expected[i] {
                assert(dest@.subrange(payload_len as int, total as int)[i as int] != expected@[i as int]);
                return Err(Error::InvalidDigest);
            }
            i += 1;
        }
        assert(dest@.subrange(payload_len as int, total as int) =~= expected@);
        Ok(payload_len)
    }
}

/// Copies the bytes that `datagram` carries behind its header into `dest`
/// from `start` on, at most `room` of them, and returns their number.
fn copy_carried(datagram: &[u8], header_len: usize, dest: &mut [u8], start: usize, room: usize) -> (count:
    usize)
    requires
        header_len <= datagram@.len(),
        start + room <= old(dest)@.len(),
    ensures
        count == carried(datagram@, header_len as int, room as int).len(),
        final(dest)@ == old(dest)@.take(start as int) + carried(
            datagram@,
            header_len as int,
            room as int,
        ) + old(dest)@.skip(start + count),
{
    let available: usize = datagram.len() - header_len;
    let capacity: usize = dest.len();
    let count: usize = if available < room {
        available
    } else {
        room
    };
    let mut k: usize = 0;
    assert(dest@ =~= old(dest)@.take(start as int) + datagram@.subrange(
        header_len as int,
        header_len as int,
    ) + old(dest)@.skip(start as int));
    while k < count
        invariant
            k <= count,
            header_len + count <= datagram@.len() <= usize::MAX,
            start + count <= dest@.len() <= usize::MAX,
            dest@.len() == old(dest)@.len(),
            dest@ == old(dest)@.take(start as int) + datagram@.subrange(
                header_len as int,
                header_len + k,
            ) + old(dest)@.skip(start + k),
        decreases count - k,
    {
        dest[start + k] = datagram[header_len + k];
        k += 1;
        assert(dest@ =~= old(dest)@.take(start as int) + datagram@.subrange(
            header_len as int,
            header_len + k,
        ) + old(dest)@.skip(start + k));
    }
    count
}

/// What a reassembler holds after it took `datagrams` in order behind the
/// `got` bytes it already had.
pub open spec fn feed(header: Header, got: Seq<u8>, datagrams: Seq<Seq<u8>>, capacity: int) -> Result<
    Seq<u8>,
    Error,
>
    decreases datagrams.len(),
{
    if datagrams.len() == 0 {
        Ok(got)
    } else {
        match next_outcome(header, got.len() as int, datagrams[0], capacity) {
            Ok(bytes) => feed(header, got + bytes, datagrams.skip(1), capacity),
            Err(e) => Err(e),
        }
    }
}

/// What a reassembler with a buffer of `capacity` bytes makes of `datagrams`
/// taken in order: the header of the message and the bytes behind the headers.
pub open spec fn reassemble(datagrams: Seq<Seq<u8>>, capacity: int) -> Result<(Header, Seq<u8>), Error> {
    if datagrams.len() == 0 {
        Err(Error::MalformedData)
    } else {
        match first_outcome(datagrams[0], capacity) {
            Ok((header, bytes)) => match feed(header, bytes, datagrams.skip(1), capacity) {
                Ok(all) => Ok((header, all)),
                Err(e) => Err(e),
            },
            Err(e) => Err(e),
        }
    }
}

/// A reassembler that holds the first `offset` bytes of a message and takes
/// the datagrams that carry the rest ends up with the whole message.
proof fn lemma_feed_rest(header: Header, stream: Seq<u8>, offset: int, packet_len: int, capacity: int)
    requires
        header.well_formed(),
        header.kind != MessageKind::Continuation,
        stream.len() == header.length,
        0 < offset <= stream.len(),
        packet_len >= 6,
        capacity >= header.length,
    ensures
        feed(header, stream.take(offset), fragments(header, stream, offset, packet_len), capacity)
            == Ok::<Seq<u8>, Error>(stream),
    decreases stream.len() - offset,
{
    if offset == stream.len() {
        assert(stream.take(offset) =~= stream);
    } else {
        let n = chunk_len(header, stream.len() as int, offset, packet_len);
        let cont = Header::blank(MessageKind::Continuation, header.channel_id);
        let datagram = fragment_at(header, stream, offset, packet_len);
        let rest = fragments(header, stream, offset + n, packet_len);
        let list = fragments(header, stream, offset, packet_len);
        assert(list =~= seq![datagram] + rest);
        assert(list[0] == datagram);
        assert(list.skip(1) =~= rest);
        let body = stream.subrange(offset, offset + n) + repeated(0, packet_len - 3 - n);
        assert(datagram =~= cont.bytes() + body);
        lemma_parse_bytes(cont, body);
        assert(carried(datagram, 3, header.length - offset) =~= stream.subrange(offset, offset + n));
        assert(stream.take(offset) + stream.subrange(offset, offset + n) =~= stream.take(offset + n));
        lemma_feed_rest(header, stream, offset + n, packet_len, capacity);
    }
}

/// Fragmenting and then reassembling gives the message back. The datagrams
/// of at least `MIN_FRAGMENT_LEN` bytes that carry a payload under `header`,
/// taken in order by a reassembler whose buffer holds the message, leave it
/// with the header, the payload and a checksum that the integrity check
/// accepts, which then returns the length of the payload.
pub proof fn lemma_fragment_roundtrip(header: Header, payload: Seq<u8>, packet_len: int, capacity: int)
    requires
        header.well_formed(),
        header.kind != MessageKind::Continuation,
        header.length == payload.len() + 4,
        packet_len >= 6,
        capacity >= header.length,
    ensures
        reassemble(fragments(header, message_stream(header, payload), 0, packet_len), capacity)
            == Ok::<(Header, Seq<u8>), Error>((header, message_stream(header, payload))),
        message_stream(header, payload).take(payload.len() as int) == payload,
        verify_outcome(header, header.length as int, message_stream(header, payload)) == Ok::<
            usize,
            Error,
        >(payload.len() as usize),
{
    let stream = message_stream(header, payload);
    assert(stream.len() == header.length);
    let n = chunk_len(header, stream.len() as int, 0, packet_len);
    let datagram = fragment_at(header, stream, 0, packet_len);
    let rest = fragments(header, stream, n, packet_len);
    let list = fragments(header, stream, 0, packet_len);
    assert(list =~= seq![datagram] + rest);
    assert(list[0] == datagram);
    assert(list.skip(1) =~= rest);
    let body = stream.subrange(0, n) + repeated(0, packet_len - 5 - n);
    assert(datagram =~= header.bytes() + body);
    lemma_parse_bytes(header, body);
    assert(carried(datagram, 5, header.length as int) =~= stream.take(n));
    lemma_feed_rest(header, stream, n, packet_len, capacity);
    assert(stream.take(payload.len() as int) =~= payload);
    assert(stream.subrange(header.length - 4, header.length as int) =~= crc32_bytes(
        header.bytes() + payload,
    ));
    assert(stream.take(header.length - 4) =~= payload);
}

/// A datagram shorter than the header it has to start with is malformed to a
/// reassembler, at the start of a message and in its course, whatever the
/// buffer holds.
pub proof fn lemma_short_datagram_rejected(header: Header, received: int, datagram: Seq<u8>, capacity: int)
    ensures
        datagram.len() < 3 ==> first_outcome(datagram, capacity) == Err::<(Header, Seq<u8>), Error>(
            Error::MalformedData,
        ) && next_outcome(header, received, datagram, capacity) == Err::<Seq<u8>, Error>(
            Error::MalformedData,
        ),
        datagram.len() < 5 ==> first_outcome(datagram, capacity) == Err::<(Header, Seq<u8>), Error>(
            Error::MalformedData,
        ),
{
}

} // verus!
