//! Byte-level encodings at the token boundary: base64url (through the
//! `base64` crate) and UTF-8 (through std, against vstd's UTF-8 model).

use vstd::prelude::*;
use vstd::string::StrSliceExecFns;
use base64::Engine;

verus! {

/// Base64url (no padding) encoding of a byte sequence, as the `base64`
/// crate's `URL_SAFE_NO_PAD` engine produces it.
pub uninterp spec fn b64u(b: Seq<u8>) -> Seq<char>;

/// The characters base64url output draws from; the segment separator `'.'`
/// is not among them.
pub open spec fn is_b64_char(c: char) -> bool {
    ||| 65 <= c as u32 <= 90
    ||| 97 <= c as u32 <= 122
    ||| 48 <= c as u32 <= 57
    ||| c == '-'
    ||| c == '_'
}

/// Relies on base64's `URL_SAFE_NO_PAD.encode`: a canonical, unpadded
/// encoding over the URL-safe alphabet.
#[verifier::external_body]
pub fn b64url_encode(b: &Vec<u8>) -> (r: Vec<char>)
    ensures
        r@ == b64u(b@),
        forall|k: int| 0 <= k < r@.len() ==> is_b64_char(#[trigger] r@[k]),
{
    base64::engine::general_purpose::URL_SAFE_NO_PAD.encode(b).chars().collect()
}

/// Relies on base64's `URL_SAFE_NO_PAD.decode`: it accepts exactly the
/// canonical unpadded encodings (padding and set trailing bits are refused),
/// so it succeeds precisely on images of `URL_SAFE_NO_PAD.encode` and
/// inverts that encoding there.
#[verifier::external_body]
pub fn b64url_decode(s: &Vec<char>) -> (r: Option<Vec<u8>>)
    ensures
        match r {
            Some(v) => s@ == b64u(v@) && forall|b: Seq<u8>| s@ == b64u(b) ==> b == v@,
            None => forall|b: Seq<u8>| s@ != b64u(b),
        },
{
    let text: String = s.iter().collect();
    match base64::engine::general_purpose::URL_SAFE_NO_PAD.decode(text.as_bytes()) {
        Ok(v) => Some(v),
        Err(_) => None,
    }
}

/// UTF-8 encoding of a character vector, through the string it spells.
pub fn chars_to_utf8(v: &Vec<char>) -> (r: Vec<u8>)
    ensures
        r@ == vstd::utf8::encode_utf8(v@),
{
    let s = crate::chars::string_from_chars(v);
    s.as_str().as_bytes_vec()
}

/// Relies on std's `str::from_utf8`: it succeeds exactly on valid UTF-8,
/// and the characters of the resulting string are the ones the bytes
/// encode, per vstd's UTF-8 model.
#[verifier::external_body]
pub fn utf8_to_chars(b: &Vec<u8>) -> (r: Option<Vec<char>>)
    ensures
        match r {
            Some(v) => b@ == vstd::utf8::encode_utf8(v@),
            None => !vstd::utf8::valid_utf8(b@),
        },
{
    match std::str::from_utf8(b) {
        Ok(t) => Some(t.chars().collect()),
        Err(_) => None,
    }
}

} // verus!
