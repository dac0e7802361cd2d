//! Text encodings used on the wire: standard base64 for ciphertext and nonces,
//! lowercase hex for content digests, and UTF-8 between strings and bytes.

use vstd::prelude::*;

verus! {

/// What base64's `STANDARD` engine returns when encoding a byte sequence.
pub uninterp spec fn b64_of(bytes: Seq<u8>) -> Seq<char>;

/// What base64's `STANDARD` engine returns when decoding a text: `Some`
/// exactly on well-formed standard base64.
pub uninterp spec fn b64_decode_of(text: Seq<char>) -> Option<Seq<u8>>;

/// Relies on `base64::engine::general_purpose::STANDARD.encode`: standard
/// base64 with padding, which the same engine's decode inverts.
#[verifier::external_body]
pub(crate) fn b64_encode(bytes: &Vec<u8>) -> (r: String)
    ensures
        r@ == b64_of(bytes@),
        b64_decode_of(r@) == Some(bytes@),
{
    base64::Engine::encode(&base64::engine::general_purpose::STANDARD, bytes)
}

/// Relies on `base64::engine::general_purpose::STANDARD.decode`: succeeds
/// exactly on well-formed standard base64 and returns the encoded bytes.
#[verifier::external_body]
pub(crate) fn b64_decode(text: &str) -> (r: Result<Vec<u8>, ()>)
    ensures
        (match r {
            Ok(b) => b64_decode_of(text@) == Some(b@) && (forall|x: Seq<u8>|
                text@ == b64_of(x) ==> b@ == x),
            Err(()) => b64_decode_of(text@) is None && (forall|x: Seq<u8>| text@ != b64_of(x)),
        }),
{
    match base64::Engine::decode(&base64::engine::general_purpose::STANDARD, text) {
        Ok(v) => Ok(v),
        Err(_) => Err(()),
    }
}

/// The sixteen lowercase hex digits, in value order.
pub open spec fn hex_digits() -> Seq<char> {
    seq!['0', '1', '2', '3', '4', '5', '6', '7', '8', '9', 'a', 'b', 'c', 'd', 'e', 'f']
}

/// Lowercase hex encoding: two digits for each byte, high digit first.
pub open spec fn hex_of(bytes: Seq<u8>) -> Seq<char>
    decreases bytes.len(),
{
    if bytes.len() == 0 {
        Seq::<char>::empty()
    } else {
        seq![
            hex_digits()[(bytes[0] / 16) as int],
            hex_digits()[(bytes[0] % 16) as int],
        ] + hex_of(bytes.drop_first())
    }
}

/// Relies on `hex::encode`: two lowercase hex digits for each byte, in order.
#[verifier::external_body]
pub(crate) fn hex_encode(bytes: &Vec<u8>) -> (r: String)
    ensures
        r@ == hex_of(bytes@),
{
    hex::encode(bytes)
}

/// Relies on `String::from_utf8`: succeeds exactly on valid UTF-8 and
/// decodes the bytes to the character sequence they encode.
#[verifier::external_body]
pub(crate) fn bytes_to_string(bytes: Vec<u8>) -> (r: Result<String, ()>)
    ensures
        r is Ok <==> vstd::utf8::valid_utf8(bytes@),
        r matches Ok(s) ==> s@ == vstd::utf8::decode_utf8(bytes@),
{
    match String::from_utf8(bytes) {
        Ok(s) => Ok(s),
        Err(_) => Err(()),
    }
}

/// What `str::trim` returns: the text without its leading and trailing
/// whitespace. Deterministic in the text.
pub uninterp spec fn trim_of(text: Seq<char>) -> Seq<char>;

/// Relies on `str::trim`.
#[verifier::external_body]
pub(crate) fn str_trim(text: &str) -> (r: &str)
    ensures
        r@ == trim_of(text@),
{
    text.trim()
}

/// The UTF-8 bytes of a string, as a fresh vector.
pub fn string_to_bytes(text: &str) -> (r: Vec<u8>)
    ensures
        r@ == vstd::utf8::encode_utf8(text@),
{
    vstd::slice::slice_to_vec(text.as_bytes())
}

} // verus!
