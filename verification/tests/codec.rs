//! Tests of the record codec: round trips, the two failure modes, and the
//! exact wire layout.

use pokebin::codec::{decode, encode, CodecError, Paste};

fn record(
    id: u64,
    title: &[u8],
    author: &[u8],
    notes: &[u8],
    rental: &[u8],
    paste: &[u8],
    format: &[u8],
) -> Paste {
    Paste {
        id,
        title: title.to_vec(),
        author: author.to_vec(),
        notes: notes.to_vec(),
        rental: rental.to_vec(),
        paste: paste.to_vec(),
        format: format.to_vec(),
    }
}

#[test]
fn round_trip_plain() {
    let p = record(
        7,
        b"My Team",
        b"someone",
        b"notes here",
        b"ABC123",
        b"Garchomp @ Rocky Helmet\n- Earthquake",
        b"gen9ou",
    );
    let bytes = encode(&p).unwrap();
    assert_eq!(decode(&bytes).unwrap(), p);
}

#[test]
fn round_trip_empty_fields() {
    let p = record(0, b"", b"", b"", b"", b"", b"");
    let bytes = encode(&p).unwrap();
    assert_eq!(bytes.len(), 8 + 5 * 8 + 1);
    assert_eq!(decode(&bytes).unwrap(), p);
}

#[test]
fn round_trip_rental_exactly_255() {
    let p = record(1, b"t", b"a", b"n", &[b'r'; 255], b"p", b"f");
    let bytes = encode(&p).unwrap();
    assert_eq!(decode(&bytes).unwrap(), p);
}

#[test]
fn round_trip_arbitrary_bytes() {
    let p = record(
        u64::MAX,
        &[0u8, 255, 10, 13, 0],
        b"\xff\xfe",
        &[],
        &[0u8],
        &[7u8; 1000],
        &[128u8, 0, 128],
    );
    let bytes = encode(&p).unwrap();
    assert_eq!(decode(&bytes).unwrap(), p);
}

#[test]
fn rental_256_bytes_fails() {
    let p = record(1, b"t", b"a", b"n", &[b'r'; 256], b"p", b"f");
    assert_eq!(encode(&p), Err(CodecError::RentalTooLong));
}

#[test]
fn truncated_buffer_fails() {
    let p = record(9, b"title", b"author", b"notes", b"rent", b"paste", b"fmt");
    let bytes = encode(&p).unwrap();
    // cutting the buffer anywhere must fail, whichever field it lands in
    for cut in 0..bytes.len() {
        let short = bytes[..cut].to_vec();
        assert_eq!(decode(&short).unwrap_err(), CodecError::MalformedRecord);
    }
}

#[test]
fn trailing_bytes_fail() {
    let p = record(2, b"t", b"", b"", b"", b"", b"");
    let mut bytes = encode(&p).unwrap();
    bytes.push(0);
    assert_eq!(decode(&bytes).unwrap_err(), CodecError::MalformedRecord);
}

#[test]
fn wire_layout_is_little_endian_with_fixed_order() {
    let p = record(0x0102, b"AB", b"c", b"", b"RR", b"p", b"q");
    let bytes = encode(&p).unwrap();
    let mut expected: Vec<u8> = Vec::new();
    expected.extend_from_slice(&[0x02, 0x01, 0, 0, 0, 0, 0, 0]); // id
    expected.extend_from_slice(&[2, 0, 0, 0, 0, 0, 0, 0]); // title_len
    expected.extend_from_slice(b"AB");
    expected.extend_from_slice(&[1, 0, 0, 0, 0, 0, 0, 0]); // author_len
    expected.extend_from_slice(b"c");
    expected.extend_from_slice(&[0, 0, 0, 0, 0, 0, 0, 0]); // notes_len
    expected.extend_from_slice(&[2]); // rental_len, one byte
    expected.extend_from_slice(b"RR");
    expected.extend_from_slice(&[1, 0, 0, 0, 0, 0, 0, 0]); // paste_len
    expected.extend_from_slice(b"p");
    expected.extend_from_slice(&[1, 0, 0, 0, 0, 0, 0, 0]); // format_len
    expected.extend_from_slice(b"q");
    assert_eq!(bytes, expected);
}

#[test]
fn declared_count_beyond_buffer_fails() {
    // id, then a title length of 100 with only 3 bytes behind it
    let mut bytes = vec![0u8; 8];
    bytes.extend_from_slice(&[100, 0, 0, 0, 0, 0, 0, 0]);
    bytes.extend_from_slice(b"abc");
    assert_eq!(decode(&bytes).unwrap_err(), CodecError::MalformedRecord);
}
