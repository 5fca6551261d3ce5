use vstd::prelude::*;
use vstd::bytes::{
    lemma_auto_spec_u64_to_from_le_bytes, spec_u64_from_le_bytes, spec_u64_to_le_bytes,
    u64_from_le_bytes, u64_to_le_bytes,
};
use vstd::slice::{slice_subrange, slice_to_vec};
use vstd::utf8::{
    decode_utf8, decode_utf8_encode_utf8, encode_utf8, encode_utf8_decode_utf8,
    encode_utf8_valid_utf8, valid_utf8,
};
use crate::booking::{Booking, BookingView, CodecError, PayloadView};

verus! {

/// Upper bound on the encoded size of one record, in bytes. No encoding this
/// codec produces may exceed it; callers reject oversized field values before
/// encoding.
pub const MAX_ENCODED_SIZE: usize = 1024;

/// Length in bytes of an encoded record: five 8-byte integers (id, ticket
/// count, and the three text field lengths) followed by the UTF-8 bytes of the
/// three text fields.
pub open spec fn encoded_len(b: BookingView) -> int {
    40 + encode_utf8(b.customer_name).len() as int + encode_utf8(b.movie_name).len() as int
        + encode_utf8(b.showtime).len() as int
}

/// Whether a record is within the declared size bound.
pub open spec fn fits(b: BookingView) -> bool {
    encoded_len(b) <= MAX_ENCODED_SIZE as int
}

/// Encoded length of the business fields alone; the id contributes the same
/// 8 bytes whatever its value, so this equals `encoded_len` of the record
/// built from the payload under any id.
pub open spec fn payload_encoded_len(p: PayloadView) -> int {
    40 + encode_utf8(p.customer_name).len() as int + encode_utf8(p.movie_name).len() as int
        + encode_utf8(p.showtime).len() as int
}

/// Whether a payload's fields are within the size bound.
pub open spec fn payload_fits(p: PayloadView) -> bool {
    payload_encoded_len(p) <= MAX_ENCODED_SIZE as int
}

/// The byte encoding of a record: id, ticket count and the three text field
/// byte lengths, each 8 bytes little-endian, then the UTF-8 bytes of the
/// three text fields in order.
pub open spec fn spec_encode(b: BookingView) -> Seq<u8> {
    spec_u64_to_le_bytes(b.id) + spec_u64_to_le_bytes(b.num_tickets) + spec_u64_to_le_bytes(
        encode_utf8(b.customer_name).len() as u64,
    ) + spec_u64_to_le_bytes(encode_utf8(b.movie_name).len() as u64) + spec_u64_to_le_bytes(
        encode_utf8(b.showtime).len() as u64,
    ) + encode_utf8(b.customer_name) + encode_utf8(b.movie_name) + encode_utf8(b.showtime)
}

/// How `spec_encode` splits into its eight parts: the length of the whole,
/// and each part as a subrange at its fixed or length-determined offset.
pub proof fn lemma_encode_parts(b: BookingView)
    requires
        fits(b),
    ensures
        ({
            let e = spec_encode(b);
            let n1 = encode_utf8(b.customer_name).len() as int;
            let n2 = encode_utf8(b.movie_name).len() as int;
            let n3 = encode_utf8(b.showtime).len() as int;
            &&& e.len() == encoded_len(b)
            &&& 40 <= e.len() <= MAX_ENCODED_SIZE as int
            &&& e.subrange(0, 8) == spec_u64_to_le_bytes(b.id)
            &&& e.subrange(8, 16) == spec_u64_to_le_bytes(b.num_tickets)
            &&& e.subrange(16, 24) == spec_u64_to_le_bytes(n1 as u64)
            &&& e.subrange(24, 32) == spec_u64_to_le_bytes(n2 as u64)
            &&& e.subrange(32, 40) == spec_u64_to_le_bytes(n3 as u64)
            &&& e.subrange(40, 40 + n1) == encode_utf8(b.customer_name)
            &&& e.subrange(40 + n1, 40 + n1 + n2) == encode_utf8(b.movie_name)
            &&& e.subrange(40 + n1 + n2, 40 + n1 + n2 + n3) == encode_utf8(b.showtime)
        }),
{
    lemma_auto_spec_u64_to_from_le_bytes();
    let e = spec_encode(b);
    let n1 = encode_utf8(b.customer_name).len() as int;
    let n2 = encode_utf8(b.movie_name).len() as int;
    let n3 = encode_utf8(b.showtime).len() as int;
    assert(e.subrange(0, 8) =~= spec_u64_to_le_bytes(b.id));
    assert(e.subrange(8, 16) =~= spec_u64_to_le_bytes(b.num_tickets));
    assert(e.subrange(16, 24) =~= spec_u64_to_le_bytes(n1 as u64));
    assert(e.subrange(24, 32) =~= spec_u64_to_le_bytes(n2 as u64));
    assert(e.subrange(32, 40) =~= spec_u64_to_le_bytes(n3 as u64));
    assert(e.subrange(40, 40 + n1) =~= encode_utf8(b.customer_name));
    assert(e.subrange(40 + n1, 40 + n1 + n2) =~= encode_utf8(b.movie_name));
    assert(e.subrange(40 + n1 + n2, 40 + n1 + n2 + n3) =~= encode_utf8(b.showtime));
}

/// The encoding is injective on records within the size bound: equal encodings
/// come from equal records.
pub proof fn lemma_encode_injective(a: BookingView, b: BookingView)
    requires
        fits(a),
        fits(b),
        spec_encode(a) == spec_encode(b),
    ensures
        a == b,
{
    lemma_auto_spec_u64_to_from_le_bytes();
    lemma_encode_parts(a);
    lemma_encode_parts(b);
    let na = encode_utf8(a.customer_name).len() as int;
    let nb = encode_utf8(b.customer_name).len() as int;
    assert(spec_u64_from_le_bytes(spec_encode(a).subrange(16, 24)) == na as u64);
    assert(spec_u64_from_le_bytes(spec_encode(b).subrange(16, 24)) == nb as u64);
    assert(na == nb);
    let ma = encode_utf8(a.movie_name).len() as int;
    let mb = encode_utf8(b.movie_name).len() as int;
    assert(ma == mb);
    encode_utf8_decode_utf8(a.customer_name);
    encode_utf8_decode_utf8(b.customer_name);
    encode_utf8_decode_utf8(a.movie_name);
    encode_utf8_decode_utf8(b.movie_name);
    encode_utf8_decode_utf8(a.showtime);
    encode_utf8_decode_utf8(b.showtime);
    assert(encode_utf8(a.customer_name) == encode_utf8(b.customer_name));
    assert(encode_utf8(a.movie_name) == encode_utf8(b.movie_name));
    assert(encode_utf8(a.showtime) == encode_utf8(b.showtime));
    assert(a.customer_name == b.customer_name);
    assert(a.movie_name == b.movie_name);
    assert(a.showtime == b.showtime);
}

/// Appends one text field: its UTF-8 byte length as 8 bytes little-endian.
fn push_len(out: &mut Vec<u8>, s: &String)
    ensures
        final(out)@ == old(out)@ + spec_u64_to_le_bytes(encode_utf8(s@).len() as u64),
{
    let bs = s.as_str().as_bytes();
    let mut lenb = u64_to_le_bytes(bs.len() as u64);
    out.append(&mut lenb);
}

/// Appends the UTF-8 bytes of one text field.
fn push_bytes(out: &mut Vec<u8>, s: &String)
    ensures
        final(out)@ == old(out)@ + encode_utf8(s@),
{
    let bs = s.as_str().as_bytes();
    let mut bv = slice_to_vec(bs);
    out.append(&mut bv);
}

/// Runtime check of the size bound for a whole record.
pub fn booking_within_bound(b: &Booking) -> (r: bool)
    ensures
        r == fits(b@),
{
    let l1 = b.customer_name.as_str().as_bytes().len();
    let l2 = b.movie_name.as_str().as_bytes().len();
    let l3 = b.showtime.as_str().as_bytes().len();
    if l1 > MAX_ENCODED_SIZE || l2 > MAX_ENCODED_SIZE || l3 > MAX_ENCODED_SIZE {
        return false;
    }
    40 + l1 + l2 + l3 <= MAX_ENCODED_SIZE
}

/// Runtime check of the size bound for the business fields of a payload.
pub fn payload_within_bound(p: &crate::booking::BookingPayload) -> (r: bool)
    ensures
        r == payload_fits(p@),
{
    let l1 = p.customer_name.as_str().as_bytes().len();
    let l2 = p.movie_name.as_str().as_bytes().len();
    let l3 = p.showtime.as_str().as_bytes().len();
    if l1 > MAX_ENCODED_SIZE || l2 > MAX_ENCODED_SIZE || l3 > MAX_ENCODED_SIZE {
        return false;
    }
    40 + l1 + l2 + l3 <= MAX_ENCODED_SIZE
}

/// Encodes a record within the size bound into its byte representation.
pub fn encode(b: &Booking) -> (r: Vec<u8>)
    requires
        fits(b@),
    ensures
        r@ == spec_encode(b@),
        r@.len() == encoded_len(b@),
{
    let mut out = u64_to_le_bytes(b.id);
    let mut tickets = u64_to_le_bytes(b.num_tickets);
    out.append(&mut tickets);
    push_len(&mut out, &b.customer_name);
    push_len(&mut out, &b.movie_name);
    push_len(&mut out, &b.showtime);
    push_bytes(&mut out, &b.customer_name);
    push_bytes(&mut out, &b.movie_name);
    push_bytes(&mut out, &b.showtime);
    proof {
        lemma_auto_spec_u64_to_from_le_bytes();
        assert(out@ =~= spec_encode(b@));
    }
    out
}

/// Encodes a record if it is within the size bound; `None` exactly when it is
/// not.
pub fn try_encode(b: &Booking) -> (r: Option<Vec<u8>>)
    ensures
        match r {
            Some(v) => fits(b@) && v@ == spec_encode(b@),
            None => !fits(b@),
        },
{
    if booking_within_bound(b) {
        Some(encode(b))
    } else {
        None
    }
}

/// Relies on `String::from_utf8`: it returns `Ok` exactly when the bytes are
/// valid UTF-8, and the returned string's characters are their decoding.
#[verifier::external_body]
fn string_from_utf8(v: Vec<u8>) -> (r: Option<String>)
    ensures
        match r {
            Some(s) => valid_utf8(v@) && s@ == decode_utf8(v@),
            None => !valid_utf8(v@),
        },
{
    String::from_utf8(v).ok()
}

/// Decodes a byte buffer produced by `encode`. Succeeds exactly on the
/// encodings of records within the size bound, and then returns the one
/// record with that encoding — so decoding what `encode` produced gives back
/// the encoded record; on any other input it reports a corrupt record.
pub fn decode(v: &Vec<u8>) -> (r: Result<Booking, CodecError>)
    ensures
        match r {
            Ok(b) => {
                &&& fits(b@)
                &&& v@ == spec_encode(b@)
                &&& forall|bv: BookingView| fits(bv) && v@ == #[trigger] spec_encode(bv) ==> bv
                    == b@
            },
            Err(_) => forall|bv: BookingView| fits(bv) ==> v@ != #[trigger] spec_encode(bv),
        },
{
    let n = v.len();
    if n < 40 || n > MAX_ENCODED_SIZE {
        proof {
            assert forall|bv: BookingView| fits(bv) implies v@ != spec_encode(bv) by {
                lemma_encode_parts(bv);
            }
        }
        return Err(CodecError::CorruptRecord);
    }
    let s = v.as_slice();
    let id = u64_from_le_bytes(slice_subrange(s, 0, 8));
    let tickets = u64_from_le_bytes(slice_subrange(s, 8, 16));
    let l1u = u64_from_le_bytes(slice_subrange(s, 16, 24));
    let l2u = u64_from_le_bytes(slice_subrange(s, 24, 32));
    let l3u = u64_from_le_bytes(slice_subrange(s, 32, 40));
    let bound64 = MAX_ENCODED_SIZE as u64;
    if l1u > bound64 || l2u > bound64 || l3u > bound64 {
        proof {
            assert forall|bv: BookingView| fits(bv) implies v@ != spec_encode(bv) by {
                if v@ == spec_encode(bv) {
                    lemma_length_fields(bv, v@);
                }
            }
        }
        return Err(CodecError::CorruptRecord);
    }
    let l1 = l1u as usize;
    let l2 = l2u as usize;
    let l3 = l3u as usize;
    if 40 + l1 + l2 + l3 != n {
        proof {
            assert forall|bv: BookingView| fits(bv) implies v@ != spec_encode(bv) by {
                if v@ == spec_encode(bv) {
                    lemma_length_fields(bv, v@);
                }
            }
        }
        return Err(CodecError::CorruptRecord);
    }
    let f1 = slice_to_vec(slice_subrange(s, 40, 40 + l1));
    let f2 = slice_to_vec(slice_subrange(s, 40 + l1, 40 + l1 + l2));
    let f3 = slice_to_vec(slice_subrange(s, 40 + l1 + l2, n));
    let ghost gf1 = f1@;
    let ghost gf2 = f2@;
    let ghost gf3 = f3@;
    let customer_name = match string_from_utf8(f1) {
        Some(t) => t,
        None => {
            proof {
                assert forall|bv: BookingView| fits(bv) implies v@ != spec_encode(bv) by {
                    if v@ == spec_encode(bv) {
                        lemma_field_bytes(bv, v@);
                        encode_utf8_valid_utf8(bv.customer_name);
                    }
                }
            }
            return Err(CodecError::CorruptRecord);
        },
    };
    let movie_name = match string_from_utf8(f2) {
        Some(t) => t,
        None => {
            proof {
                assert forall|bv: BookingView| fits(bv) implies v@ != spec_encode(bv) by {
                    if v@ == spec_encode(bv) {
                        lemma_field_bytes(bv, v@);
                        encode_utf8_valid_utf8(bv.movie_name);
                    }
                }
            }
            return Err(CodecError::CorruptRecord);
        },
    };
    let showtime = match string_from_utf8(f3) {
        Some(t) => t,
        None => {
            proof {
                assert forall|bv: BookingView| fits(bv) implies v@ != spec_encode(bv) by {
                    if v@ == spec_encode(bv) {
                        lemma_field_bytes(bv, v@);
                        encode_utf8_valid_utf8(bv.showtime);
                    }
                }
            }
            return Err(CodecError::CorruptRecord);
        },
    };
    let b = Booking { id, customer_name, movie_name, showtime, num_tickets: tickets };
    proof {
        lemma_auto_spec_u64_to_from_le_bytes();
        decode_utf8_encode_utf8(gf1);
        decode_utf8_encode_utf8(gf2);
        decode_utf8_encode_utf8(gf3);
        assert(encode_utf8(b@.customer_name) == gf1);
        assert(encode_utf8(b@.movie_name) == gf2);
        assert(encode_utf8(b@.showtime) == gf3);
        assert(spec_encode(b@) =~= v@);
        assert forall|bv: BookingView| fits(bv) && v@ == spec_encode(bv) implies bv == b@ by {
            lemma_encode_injective(bv, b@);
        }
    }
    Ok(b)
}

/// If a buffer is the encoding of a record within the bound, then its three
/// length fields decode to the record's text byte lengths, and those lengths
/// together with the fixed 40-byte prefix account for the whole buffer.
proof fn lemma_length_fields(bv: BookingView, v: Seq<u8>)
    requires
        fits(bv),
        v == spec_encode(bv),
    ensures
        ({
            let n1 = encode_utf8(bv.customer_name).len() as int;
            let n2 = encode_utf8(bv.movie_name).len() as int;
            let n3 = encode_utf8(bv.showtime).len() as int;
            &&& v.len() == 40 + n1 + n2 + n3 <= MAX_ENCODED_SIZE as int
            &&& spec_u64_from_le_bytes(v.subrange(16, 24)) == n1 as u64
            &&& spec_u64_from_le_bytes(v.subrange(24, 32)) == n2 as u64
            &&& spec_u64_from_le_bytes(v.subrange(32, 40)) == n3 as u64
            &&& n1 as u64 as int == n1
            &&& n2 as u64 as int == n2
            &&& n3 as u64 as int == n3
        }),
{
    lemma_auto_spec_u64_to_from_le_bytes();
    lemma_encode_parts(bv);
}

/// If a buffer is the encoding of a record within the bound, then the three
/// byte ranges after the 40-byte prefix are the UTF-8 bytes of its text
/// fields.
proof fn lemma_field_bytes(bv: BookingView, v: Seq<u8>)
    requires
        fits(bv),
        v == spec_encode(bv),
    ensures
        ({
            let n1 = encode_utf8(bv.customer_name).len() as int;
            let n2 = encode_utf8(bv.movie_name).len() as int;
            let n3 = encode_utf8(bv.showtime).len() as int;
            &&& v.len() == 40 + n1 + n2 + n3
            &&& spec_u64_from_le_bytes(v.subrange(16, 24)) == n1 as u64
            &&& spec_u64_from_le_bytes(v.subrange(24, 32)) == n2 as u64
            &&& spec_u64_from_le_bytes(v.subrange(32, 40)) == n3 as u64
            &&& v.subrange(40, 40 + n1) == encode_utf8(bv.customer_name)
            &&& v.subrange(40 + n1, 40 + n1 + n2) == encode_utf8(bv.movie_name)
            &&& v.subrange(40 + n1 + n2, 40 + n1 + n2 + n3) == encode_utf8(bv.showtime)
        }),
{
    lemma_auto_spec_u64_to_from_le_bytes();
    lemma_encode_parts(bv);
}

} // verus!
