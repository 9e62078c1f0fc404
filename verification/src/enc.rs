//! Byte-string encodings the codecs lean on: base64, lowercase hex,
//! and UTF-8 decoding.  Hex has a full specification of its own; the
//! base64 and UTF-8 results are named and axiomatized only as far as
//! the crates' documentation states them.

use vstd::prelude::*;
use base64::Engine;
use crate::text::spec_hex_digit;

verus! {

/// The standard base64 encoding (with padding) of `b`.
pub uninterp spec fn base64_of(b: Seq<u8>) -> Seq<char>;

/// The bytes a standard base64 decode of `s` yields, if `s` is valid.
pub uninterp spec fn base64_decode_of(s: Seq<char>) -> Option<Seq<u8>>;

/// Relies on base64's standard engine with padding: four output
/// characters for every three input bytes, and decode inverts encode.
#[verifier::external_body]
pub fn base64_encode(b: &Vec<u8>) -> (r: String)
    ensures
        r@ == base64_of(b@),
        r@.len() == 4 * ((b@.len() + 2) / 3),
        base64_decode_of(r@) == Some(b@),
{
    base64::engine::general_purpose::STANDARD.encode(b)
}

/// Relies on base64's standard engine: `Ok` exactly on well-formed
/// standard base64 text, returning the encoded bytes.
#[verifier::external_body]
pub fn base64_decode(s: &str) -> (r: Result<Vec<u8>, String>)
    ensures
        r is Ok <==> base64_decode_of(s@) is Some,
        r is Ok ==> r.unwrap()@ == base64_decode_of(s@).unwrap(),
{
    match base64::engine::general_purpose::STANDARD.decode(s) {
        Ok(v) => Ok(v),
        Err(e) => Err(format!("{}", e)),
    }
}

/// Two lowercase hex digits for one byte.
pub open spec fn spec_hex_byte(b: u8) -> Seq<char> {
    seq![spec_hex_digit((b as nat) / 16), spec_hex_digit((b as nat) % 16)]
}

/// Lowercase hex rendering of `b`, two digits per byte, in order.
pub open spec fn spec_hex_of(b: Seq<u8>) -> Seq<char>
    decreases b.len(),
{
    if b.len() == 0 {
        Seq::empty()
    } else {
        spec_hex_byte(b[0]) + spec_hex_of(b.drop_first())
    }
}

/// Relies on hex's `encode`: lowercase, two digits per byte.
#[verifier::external_body]
pub fn hex_encode(b: &Vec<u8>) -> (r: String)
    ensures
        r@ == spec_hex_of(b@),
{
    hex::encode(b)
}

/// Whether `c` is an ASCII hex digit, either case.
pub open spec fn spec_is_hex_digit(c: char) -> bool {
    (48 <= c as u32 && c as u32 <= 57) || (97 <= c as u32 && c as u32 <= 102) || (65 <= c as u32
        && c as u32 <= 70)
}

/// The value of an ASCII hex digit.
pub open spec fn spec_hex_val(c: char) -> nat {
    if 48 <= c as u32 && c as u32 <= 57 {
        (c as u32 - 48) as nat
    } else if 97 <= c as u32 && c as u32 <= 102 {
        (c as u32 - 87) as nat
    } else if 65 <= c as u32 && c as u32 <= 70 {
        (c as u32 - 55) as nat
    } else {
        0
    }
}

/// Whether `s` is a well-formed hex string: even length, hex digits only.
pub open spec fn spec_hex_valid(s: Seq<char>) -> bool {
    s.len() % 2 == 0 && forall|i: int| 0 <= i < s.len() ==> spec_is_hex_digit(s[i])
}

/// The bytes a well-formed hex string denotes, two digits per byte.
pub open spec fn spec_hex_bytes(s: Seq<char>) -> Seq<u8> {
    Seq::new(
        s.len() / 2,
        |i: int| (spec_hex_val(s[2 * i]) * 16 + spec_hex_val(s[2 * i + 1])) as u8,
    )
}

/// Relies on hex's `decode`: `Ok` exactly on an even number of hex
/// digits, each pair giving one byte.
#[verifier::external_body]
pub fn hex_decode(s: &str) -> (r: Result<Vec<u8>, String>)
    ensures
        r is Ok <==> spec_hex_valid(s@),
        r is Ok ==> r.unwrap()@ == spec_hex_bytes(s@),
{
    match hex::decode(s) {
        Ok(v) => Ok(v),
        Err(e) => Err(format!("{}", e)),
    }
}

pub proof fn lemma_hex_of_len(b: Seq<u8>)
    ensures
        spec_hex_of(b).len() == 2 * b.len(),
    decreases b.len(),
{
    if b.len() > 0 {
        lemma_hex_of_len(b.drop_first());
    }
}

pub proof fn lemma_hex_digit_val(d: nat)
    requires
        d < 16,
    ensures
        spec_is_hex_digit(spec_hex_digit(d as nat)),
        spec_hex_val(spec_hex_digit(d as nat)) == d,
{
}

pub proof fn lemma_hex_of_index(b: Seq<u8>, i: int)
    requires
        0 <= i < b.len(),
    ensures
        spec_hex_of(b)[2 * i] == spec_hex_digit((b[i] as nat) / 16),
        spec_hex_of(b)[2 * i + 1] == spec_hex_digit((b[i] as nat) % 16),
    decreases b.len(),
{
    lemma_hex_of_len(b.drop_first());
    if i == 0 {
    } else {
        lemma_hex_of_index(b.drop_first(), i - 1);
    }
}

/// A hex rendering is itself a well-formed hex string, and decodes
/// back to the bytes it came from.
pub proof fn lemma_hex_round_trip(b: Seq<u8>)
    ensures
        spec_hex_valid(spec_hex_of(b)),
        spec_hex_bytes(spec_hex_of(b)) == b,
{
    let h = spec_hex_of(b);
    lemma_hex_of_len(b);
    assert forall|i: int| 0 <= i < h.len() implies spec_is_hex_digit(h[i]) by {
        let k = i / 2;
        lemma_hex_of_index(b, k);
        if i % 2 == 0 {
            assert(h[i] == spec_hex_digit((b[k] as nat) / 16));
            lemma_hex_digit_val((b[k] as nat) / 16);
        } else {
            assert(i == 2 * k + 1);
            assert(h[i] == spec_hex_digit((b[k] as nat) % 16));
            lemma_hex_digit_val((b[k] as nat) % 16);
        }
    }
    assert forall|i: int| 0 <= i < b.len() implies spec_hex_bytes(h)[i] == b[i] by {
        lemma_hex_of_index(b, i);
        lemma_hex_digit_val((b[i] as nat) / 16);
        lemma_hex_digit_val((b[i] as nat) % 16);
        assert(spec_hex_val(h[2 * i]) == (b[i] as nat) / 16);
        assert(spec_hex_val(h[2 * i + 1]) == (b[i] as nat) % 16);
    }
    assert(spec_hex_bytes(h) =~= b);
}

/// The characters `String::from_utf8_lossy` reads out of `b`.
pub uninterp spec fn utf8_lossy_of(b: Seq<u8>) -> Seq<char>;

/// Relies on std's `String::from_utf8_lossy`: a pure function of the
/// bytes; an empty input gives an empty string.
#[verifier::external_body]
pub fn utf8_lossy(b: &Vec<u8>) -> (r: String)
    ensures
        r@ == utf8_lossy_of(b@),
        b@.len() == 0 ==> r@.len() == 0,
{
    String::from_utf8_lossy(b).into_owned()
}

/// Relies on std's `String::from_utf8`: `Ok` exactly on well-formed
/// UTF-8, and then the strict and lossy decodings agree.
#[verifier::external_body]
pub fn utf8_strict(b: Vec<u8>) -> (r: Option<String>)
    ensures
        r is Some <==> vstd::utf8::valid_utf8(b@),
        r is Some ==> r.unwrap()@ == utf8_lossy_of(b@),
{
    String::from_utf8(b).ok()
}

/// A fetched body as boundary text: well-formed UTF-8 passes through
/// as it is; anything else goes out base64-encoded behind a marker.
pub fn fetched_body_to_string(bytes: Vec<u8>) -> (r: String)
    ensures
        vstd::utf8::valid_utf8(bytes@) ==> r@ == utf8_lossy_of(bytes@),
        !vstd::utf8::valid_utf8(bytes@) ==> r@ == "base64:"@ + base64_of(bytes@),
{
    let encoded = base64_encode(&bytes);
    match utf8_strict(bytes) {
        Some(text) => text,
        None => {
            let mut r = String::from_str("base64:");
            r.append(encoded.as_str());
            r
        },
    }
}

} // verus!
