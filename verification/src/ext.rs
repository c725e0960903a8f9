//! The few places where the library leans on code it does not verify:
//! base64 decoding and two small std conversions. Each item's contract
//! states what the outside function is documented and written to do.

use vstd::prelude::*;

verus! {

/// What `base64::decode` yields on a given input: `Some` of the decoded
/// bytes when the input is well-formed standard-alphabet base64,
/// `None` otherwise. The result depends on the characters alone.
pub uninterp spec fn base64_decoded(s: Seq<char>) -> Option<Seq<u8>>;

/// What lossy UTF-8 conversion yields on a given byte string: the decoded
/// characters, with every ill-formed sequence replaced. The result depends
/// on the bytes alone.
pub uninterp spec fn lossy_decoded(b: Seq<u8>) -> Seq<char>;

/// Relies on `base64::decode`: it decodes standard-alphabet base64,
/// returning the bytes on well-formed input and an error otherwise, a
/// function of the input alone.
#[verifier::external_body]
pub(crate) fn b64_decode(s: &str) -> (r: Option<Vec<u8>>)
    ensures
        match r {
            Some(v) => base64_decoded(s@) == Some(v@),
            None => base64_decoded(s@) is None,
        },
{
    match base64::decode(s) {
        Ok(v) => Some(v),
        Err(_) => None,
    }
}

/// Relies on `String::from_utf8_lossy`: the result is a function of the
/// bytes alone, and bytes that are valid UTF-8 come through unchanged.
#[verifier::external_body]
pub(crate) fn utf8_lossy(b: &Vec<u8>) -> (r: String)
    ensures
        r@ == lossy_decoded(b@),
        vstd::utf8::valid_utf8(b@) ==> r@ == vstd::utf8::decode_utf8(b@),
{
    String::from_utf8_lossy(b.as_slice()).into_owned()
}

/// Relies on `String`'s `FromIterator<char>`: collecting characters
/// builds the string of exactly those characters, in order.
#[verifier::external_body]
pub(crate) fn chars_to_string(v: &Vec<char>) -> (r: String)
    ensures
        r@ == v@,
{
    v.iter().collect()
}

/// Bytes that are the UTF-8 encoding of some text decode back to exactly
/// that text. This lemma is proved, not assumed; together with the
/// contract of `lossy_utf8` on `ArbitraryData` it says the accessor
/// returns a base64 payload's original text whenever the decoded bytes
/// are valid UTF-8: nothing is lost on valid input.
pub proof fn lemma_lossy_exact_on_valid_utf8(t: Seq<char>, bs: Seq<u8>)
    requires
        bs == vstd::utf8::encode_utf8(t),
    ensures
        vstd::utf8::valid_utf8(bs),
        vstd::utf8::decode_utf8(bs) == t,
{
    vstd::utf8::encode_utf8_valid_utf8(t);
    vstd::utf8::encode_utf8_decode_utf8(t);
}

/// Relies on `char::from_u32`: it returns `Some` of the character with
/// the given scalar value exactly when the value is a Unicode scalar
/// value (not a surrogate, not above the maximum code point).
#[verifier::external_body]
pub(crate) fn char_from_u32(v: u32) -> (r: Option<char>)
    ensures
        match r {
            Some(c) => c as u32 == v,
            None => !(v < 0xD800 || (0xE000 <= v && v <= 0x10FFFF)),
        },
{
    char::from_u32(v)
}

} // verus!
