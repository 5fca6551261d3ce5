use booking_store::booking::{Booking, CodecError};
use booking_store::codec::{decode, encode, try_encode, MAX_ENCODED_SIZE};

fn booking(id: u64, customer: &str, movie: &str, showtime: &str, tickets: u64) -> Booking {
    Booking {
        id,
        customer_name: customer.to_string(),
        movie_name: movie.to_string(),
        showtime: showtime.to_string(),
        num_tickets: tickets,
    }
}

fn assert_same(a: &Booking, b: &Booking) {
    assert_eq!(a.id, b.id);
    assert_eq!(a.customer_name, b.customer_name);
    assert_eq!(a.movie_name, b.movie_name);
    assert_eq!(a.showtime, b.showtime);
    assert_eq!(a.num_tickets, b.num_tickets);
}

#[test]
fn round_trip_plain() {
    let b = booking(7, "Ann", "Dune", "19:00", 2);
    let bytes = encode(&b);
    let back = decode(&bytes).unwrap();
    assert_same(&b, &back);
}

#[test]
fn round_trip_empty_fields() {
    let b = booking(0, "", "", "", 0);
    let bytes = encode(&b);
    assert_eq!(bytes.len(), 40);
    let back = decode(&bytes).unwrap();
    assert_same(&b, &back);
}

#[test]
fn round_trip_multibyte_text() {
    let b = booking(u64::MAX, "Åsa Öström", "Dune — Part Two", "19:00 ✓", u64::MAX);
    let bytes = encode(&b);
    let back = decode(&bytes).unwrap();
    assert_same(&b, &back);
}

#[test]
fn encoded_layout_is_length_prefixed_little_endian() {
    let b = booking(1, "Ann", "Dune", "19:00", 2);
    let bytes = encode(&b);
    assert_eq!(bytes.len(), 40 + 3 + 4 + 5);
    assert_eq!(&bytes[0..8], &[1, 0, 0, 0, 0, 0, 0, 0]);
    assert_eq!(&bytes[8..16], &[2, 0, 0, 0, 0, 0, 0, 0]);
    assert_eq!(&bytes[16..24], &[3, 0, 0, 0, 0, 0, 0, 0]);
    assert_eq!(&bytes[24..32], &[4, 0, 0, 0, 0, 0, 0, 0]);
    assert_eq!(&bytes[32..40], &[5, 0, 0, 0, 0, 0, 0, 0]);
    assert_eq!(&bytes[40..43], b"Ann");
    assert_eq!(&bytes[43..47], b"Dune");
    assert_eq!(&bytes[47..52], b"19:00");
}

#[test]
fn decode_rejects_empty_and_short_buffers() {
    assert_eq!(decode(&Vec::new()), Err(CodecError::CorruptRecord));
    assert_eq!(decode(&vec![0u8; 39]), Err(CodecError::CorruptRecord));
}

#[test]
fn decode_rejects_oversized_buffer() {
    assert_eq!(decode(&vec![0u8; MAX_ENCODED_SIZE + 1]), Err(CodecError::CorruptRecord));
}

#[test]
fn decode_rejects_truncated_encoding() {
    let b = booking(3, "Ann", "Dune", "19:00", 2);
    let mut bytes = encode(&b);
    bytes.pop();
    assert_eq!(decode(&bytes), Err(CodecError::CorruptRecord));
}

#[test]
fn decode_rejects_trailing_byte() {
    let b = booking(3, "Ann", "Dune", "19:00", 2);
    let mut bytes = encode(&b);
    bytes.push(0);
    assert_eq!(decode(&bytes), Err(CodecError::CorruptRecord));
}

#[test]
fn decode_rejects_length_field_past_buffer() {
    let mut bytes = vec![0u8; 41];
    bytes[16] = 200;
    assert_eq!(decode(&bytes), Err(CodecError::CorruptRecord));
}

#[test]
fn decode_rejects_invalid_utf8() {
    let b = booking(3, "AB", "Dune", "19:00", 2);
    let mut bytes = encode(&b);
    bytes[40] = 0xFF;
    bytes[41] = 0xFE;
    assert_eq!(decode(&bytes), Err(CodecError::CorruptRecord));
}

#[test]
fn try_encode_respects_the_bound() {
    let small = booking(1, "Ann", "Dune", "19:00", 2);
    assert!(try_encode(&small).is_some());
    let exact = booking(1, &"x".repeat(MAX_ENCODED_SIZE - 40), "", "", 2);
    let bytes = try_encode(&exact).expect("a record of exactly the bound encodes");
    assert_eq!(bytes.len(), MAX_ENCODED_SIZE);
    let huge = booking(1, &"x".repeat(MAX_ENCODED_SIZE - 39), "", "", 2);
    assert!(try_encode(&huge).is_none());
}
