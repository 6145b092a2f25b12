use trezor_thp::alternating_bit::SyncBits;
use trezor_thp::control_byte::{HandshakeMessage, MessageKind};
use trezor_thp::crc32::{checksum_of_two, to_bytes};
use trezor_thp::error::Error;
use trezor_thp::fragment::{Fragmenter, Reassembler, MIN_FRAGMENT_LEN};
use trezor_thp::header::Header;

fn payload_of(len: usize) -> Vec<u8> {
    (0..len).map(|i| (i * 7 + 3) as u8).collect()
}

fn fragment_all(header: Header, bits: SyncBits, payload: &[u8], packet_len: usize) -> Vec<Vec<u8>> {
    let mut fragmenter = Fragmenter::new(header, bits, payload).unwrap();
    let mut datagrams = Vec::new();
    while !fragmenter.is_done() {
        let mut datagram = vec![0xeeu8; packet_len];
        assert_eq!(fragmenter.next(payload, &mut datagram), Ok(true));
        datagrams.push(datagram);
    }
    let mut extra = vec![0xeeu8; packet_len];
    assert_eq!(fragmenter.next(payload, &mut extra), Ok(false));
    assert_eq!(extra, vec![0xeeu8; packet_len]);
    datagrams
}

fn reassemble_all(datagrams: &[Vec<u8>], dest: &mut [u8]) -> Reassembler {
    let mut reassembler = Reassembler::new(&datagrams[0], dest).unwrap();
    for (i, datagram) in datagrams.iter().enumerate().skip(1) {
        assert!(!reassembler.is_done(), "done before datagram {}", i);
        assert_eq!(reassembler.update(datagram, dest), Ok(()));
    }
    reassembler
}

#[test]
fn payload_of_300_bytes_round_trips() {
    let payload = payload_of(300);
    let header = Header::new_data(0x1234);
    let bits = SyncBits { seq_bit: true, ack_bit: false };
    let datagrams = fragment_all(header, bits, &payload, 64);
    // 304 bytes behind the headers: 59 in the first datagram, 61 in each further one
    assert_eq!(datagrams.len(), 6);
    assert!(datagrams.iter().all(|d| d.len() == 64));
    assert_eq!(&datagrams[0][..5], &[0x14, 0x12, 0x34, 0x01, 0x30]);
    assert_eq!(&datagrams[0][5..], &payload[..59]);
    assert_eq!(&datagrams[1][..3], &[0x80, 0x12, 0x34]);
    assert_eq!(&datagrams[1][3..], &payload[59..120]);
    // the last datagram carries 1 byte, and is zero behind it
    assert_eq!(&datagrams[5][3..4], &payload[299..]);
    let mut dest = vec![0u8; 400];
    let reassembler = reassemble_all(&datagrams, &mut dest);
    assert!(reassembler.is_done());
    assert_eq!(reassembler.verify(&dest), Ok(300));
    assert_eq!(&dest[..300], &payload[..]);
    assert_eq!(reassembler.header().channel_id, 0x1234);
    assert_eq!(reassembler.header().kind, MessageKind::EncryptedTransport);
    assert_eq!(reassembler.header().sync, bits);
    assert_eq!(reassembler.header().length, 304);
}

#[test]
fn fragment_then_reassemble_for_many_sizes() {
    for packet_len in [6usize, 7, 9, 16, 64, 244] {
        for len in [0usize, 1, 2, 58, 59, 60, 61, 119, 120, 121, 500] {
            let payload = payload_of(len);
            let header = Header::new_handshake(0x00a1, HandshakeMessage::CompletionRequest);
            let datagrams = fragment_all(header, SyncBits::new(), &payload, packet_len);
            let mut dest = vec![0u8; len + 4];
            let reassembler = reassemble_all(&datagrams, &mut dest);
            assert!(reassembler.is_done());
            assert_eq!(reassembler.verify(&dest), Ok(len));
            assert_eq!(&dest[..len], &payload[..]);
        }
    }
}

#[test]
fn is_done_exactly_when_all_bytes_are_in() {
    let payload = payload_of(100);
    let datagrams = fragment_all(Header::new_data(1), SyncBits::new(), &payload, 64);
    assert_eq!(datagrams.len(), 2);
    let mut dest = [0u8; 128];
    let mut reassembler = Reassembler::new(&datagrams[0], &mut dest).unwrap();
    assert!(!reassembler.is_done());
    assert_eq!(reassembler.verify(&dest), Err(Error::MalformedData));
    reassembler.update(&datagrams[1], &mut dest).unwrap();
    assert!(reassembler.is_done());
    assert_eq!(reassembler.verify(&dest), Ok(100));
    // a further continuation is out of order
    assert_eq!(reassembler.update(&datagrams[1], &mut dest), Err(Error::MalformedData));
    assert!(reassembler.is_done());
}

#[test]
fn checksum_covers_header_and_payload() {
    let payload = payload_of(10);
    let datagrams = fragment_all(Header::new_data(0x0102), SyncBits::new(), &payload, 64);
    assert_eq!(datagrams.len(), 1);
    let expected = to_bytes(checksum_of_two(&[0x04, 0x01, 0x02, 0x00, 0x0e], &payload));
    assert_eq!(&datagrams[0][15..19], &expected);
    assert!(datagrams[0][19..].iter().all(|b| *b == 0));
}

#[test]
fn reassembler_rejects_short_datagram() {
    let mut dest = [7u8; 16];
    assert_eq!(Reassembler::new(&[], &mut dest).err(), Some(Error::MalformedData));
    assert_eq!(Reassembler::new(&[0x04, 0x00], &mut dest).err(), Some(Error::MalformedData));
    assert_eq!(
        Reassembler::new(&[0x04, 0x00, 0x01, 0x00], &mut dest).err(),
        Some(Error::MalformedData)
    );
    assert_eq!(dest, [7u8; 16]);
    let mut reassembler = Reassembler::new(&[0x04, 0x00, 0x01, 0x00, 0x08, 1, 2], &mut dest).unwrap();
    assert_eq!(reassembler.update(&[0x80, 0x00], &mut dest), Err(Error::MalformedData));
    assert_eq!(reassembler.update(&[], &mut dest), Err(Error::MalformedData));
    assert!(!reassembler.is_done());
}

#[test]
fn reassembler_rejects_continuation_as_first() {
    let mut dest = [0u8; 16];
    assert_eq!(
        Reassembler::new(&[0x80, 0x00, 0x01, 0x00, 0x08, 1, 2], &mut dest).err(),
        Some(Error::MalformedData)
    );
}

#[test]
fn reassembler_rejects_overflow() {
    let payload = payload_of(20);
    let datagrams = fragment_all(Header::new_data(1), SyncBits::new(), &payload, 64);
    let mut small = [5u8; 23];
    assert_eq!(Reassembler::new(&datagrams[0], &mut small).err(), Some(Error::InsufficientBuffer));
    assert_eq!(small, [5u8; 23]);
    let mut exact = [5u8; 24];
    let reassembler = Reassembler::new(&datagrams[0], &mut exact).unwrap();
    assert_eq!(reassembler.verify(&exact), Ok(20));
}

#[test]
fn reassembler_rejects_wrong_continuation() {
    let payload = payload_of(100);
    let datagrams = fragment_all(Header::new_data(0x0001), SyncBits::new(), &payload, 64);
    let mut dest = [0u8; 128];
    let mut reassembler = Reassembler::new(&datagrams[0], &mut dest).unwrap();
    let snapshot = dest;
    // a first fragment where a continuation is due
    assert_eq!(reassembler.update(&datagrams[0], &mut dest), Err(Error::MalformedData));
    // a continuation of another channel
    let mut other = datagrams[1].clone();
    other[2] = 0x02;
    assert_eq!(reassembler.update(&other, &mut dest), Err(Error::MalformedData));
    assert_eq!(dest, snapshot);
    assert_eq!(reassembler.update(&datagrams[1], &mut dest), Ok(()));
    assert_eq!(reassembler.verify(&dest), Ok(100));
}

#[test]
fn verify_detects_corruption() {
    let payload = payload_of(40);
    let datagrams = fragment_all(Header::new_data(1), SyncBits::new(), &payload, 64);
    let mut dest = [0u8; 64];
    let reassembler = Reassembler::new(&datagrams[0], &mut dest).unwrap();
    assert_eq!(reassembler.verify(&dest), Ok(40));
    dest[3] ^= 1;
    assert_eq!(reassembler.verify(&dest), Err(Error::InvalidDigest));
    dest[3] ^= 1;
    dest[43] ^= 0x80;
    assert_eq!(reassembler.verify(&dest), Err(Error::InvalidDigest));
    dest[43] ^= 0x80;
    assert_eq!(reassembler.verify(&dest), Ok(40));
    assert_eq!(reassembler.verify(&dest[..43]), Err(Error::MalformedData));
}

#[test]
fn verify_detects_corrupted_header() {
    let payload = payload_of(4);
    let mut datagrams = fragment_all(Header::new_data(1), SyncBits::new(), &payload, 64);
    datagrams[0][2] = 0x02;
    let mut dest = [0u8; 64];
    let reassembler = Reassembler::new(&datagrams[0], &mut dest).unwrap();
    assert_eq!(reassembler.verify(&dest), Err(Error::InvalidDigest));
}

#[test]
fn fragmenter_needs_room_for_a_fragment() {
    let payload = payload_of(10);
    let mut fragmenter = Fragmenter::new(Header::new_data(1), SyncBits::new(), &payload).unwrap();
    let mut small = [3u8; MIN_FRAGMENT_LEN - 1];
    assert_eq!(fragmenter.next(&payload, &mut small), Err(Error::InsufficientBuffer));
    assert_eq!(small, [3u8; MIN_FRAGMENT_LEN - 1]);
    assert!(!fragmenter.is_done());
    let mut least = [3u8; MIN_FRAGMENT_LEN];
    assert_eq!(fragmenter.next(&payload, &mut least), Ok(true));
    assert_eq!(least, [0x04, 0x00, 0x01, 0x00, 0x0e, payload[0]]);
}

#[test]
fn fragmenter_checks_its_source() {
    let payload = payload_of(10);
    let mut fragmenter = Fragmenter::new(Header::new_data(1), SyncBits::new(), &payload).unwrap();
    let mut dest = [0u8; 64];
    assert_eq!(fragmenter.next(&payload[..9], &mut dest), Err(Error::UnexpectedInput));
    assert_eq!(fragmenter.next(&payload_of(11), &mut dest), Err(Error::UnexpectedInput));
    assert_eq!(dest, [0u8; 64]);
}

#[test]
fn fragmenter_refuses_what_no_header_announces() {
    let payload = payload_of(1);
    assert_eq!(
        Fragmenter::new(Header::new_continuation(1), SyncBits::new(), &payload).err(),
        Some(Error::UnexpectedInput)
    );
    let long = vec![0u8; 65532];
    assert_eq!(
        Fragmenter::new(Header::new_data(1), SyncBits::new(), &long).err(),
        Some(Error::UnexpectedInput)
    );
    assert!(Fragmenter::new(Header::new_data(1), SyncBits::new(), &long[..65531]).is_ok());
}

#[test]
fn single_writes_an_acknowledgment() {
    let mut dest = [0x11u8; 12];
    let bits = SyncBits { seq_bit: false, ack_bit: true };
    assert_eq!(Fragmenter::single(Header::new_ack(0x1234), bits, &[], &mut dest), Ok(()));
    let crc = to_bytes(checksum_of_two(&[0x28, 0x12, 0x34, 0x00, 0x04], &[]));
    assert_eq!(&dest[..5], &[0x28, 0x12, 0x34, 0x00, 0x04]);
    assert_eq!(&dest[5..9], &crc);
    assert_eq!(&dest[9..], &[0, 0, 0]);
    let mut buffer = [0u8; 8];
    let reassembler = Reassembler::new(&dest, &mut buffer).unwrap();
    assert!(reassembler.is_done());
    assert!(reassembler.header().is_ack());
    assert_eq!(reassembler.verify(&buffer), Ok(0));
}

#[test]
fn single_needs_the_whole_message_to_fit() {
    let payload = payload_of(3);
    let mut small = [0x11u8; 11];
    assert_eq!(
        Fragmenter::single(Header::new_data(1), SyncBits::new(), &payload, &mut small),
        Err(Error::InsufficientBuffer)
    );
    assert_eq!(small, [0x11u8; 11]);
    let mut exact = [0x11u8; 12];
    assert_eq!(
        Fragmenter::single(Header::new_data(1), SyncBits::new(), &payload, &mut exact),
        Ok(())
    );
    assert_eq!(
        Fragmenter::single(Header::new_continuation(1), SyncBits::new(), &payload, &mut exact),
        Err(Error::UnexpectedInput)
    );
}
