//! Bytes as text.
use base64::engine::general_purpose::{STANDARD, URL_SAFE_NO_PAD};
use base64::Engine;
#[allow(unused_imports)]
use vstd::utf8::{decode_utf8, encode_utf8, valid_utf8};
use vstd::prelude::*;

verus! {

/// What `URL_SAFE_NO_PAD.encode` of the `base64` crate makes of some bytes.
pub uninterp spec fn b64url_encoded(bytes: Seq<u8>) -> Seq<char>;

/// `base64::Engine::encode` with `URL_SAFE_NO_PAD`: the bytes as text.
#[verifier::external_body]
pub(crate) fn b64url_encode(bytes: &Vec<u8>) -> (text: String)
    ensures
        text@ == b64url_encoded(bytes@),
{
    URL_SAFE_NO_PAD.encode(bytes)
}

/// What `STANDARD.encode` of the `base64` crate makes of some bytes.
pub uninterp spec fn b64_encoded(bytes: Seq<u8>) -> Seq<char>;

/// The bytes that `STANDARD.decode` of the `base64` crate reads from a text, if
/// it is base64.
pub uninterp spec fn b64_decoded(text: Seq<char>) -> Option<Seq<u8>>;

/// `base64::Engine::encode` with `STANDARD`: the bytes as text, which decodes to
/// them again.
#[verifier::external_body]
pub(crate) fn b64_encode(bytes: &[u8]) -> (text: String)
    ensures
        text@ == b64_encoded(bytes@),
        b64_decoded(text@) == Some(bytes@),
{
    STANDARD.encode(bytes)
}

/// `base64::Engine::decode` with `STANDARD`: the bytes behind a text.
#[verifier::external_body]
pub(crate) fn b64_decode(text: &str) -> (bytes: Option<Vec<u8>>)
    ensures
        match bytes {
            Some(bytes) => b64_decoded(text@) == Some(bytes@),
            None => b64_decoded(text@) is None,
        },
{
    STANDARD.decode(text).ok()
}

/// What `BASE32_NOPAD.encode` of the `data-encoding` crate makes of some bytes.
pub uninterp spec fn base32_encoded(bytes: Seq<u8>) -> Seq<char>;

/// The bytes that `BASE32_NOPAD.decode` of the `data-encoding` crate reads from
/// a text, if it is base32.
pub uninterp spec fn base32_decoded(text: Seq<char>) -> Option<Seq<u8>>;

/// The characters of base32.
pub open spec fn is_base32(c: char) -> bool {
    ('A' <= c <= 'Z') || ('2' <= c <= '7')
}

/// `data_encoding::Encoding::encode` of `BASE32_NOPAD` on 32 bytes: 52 characters
/// of its alphabet, which decode to the bytes again. Far longer input would
/// panic.
#[verifier::external_body]
pub(crate) fn base32_encode(bytes: &[u8]) -> (text: String)
    requires
        bytes@.len() == 32,
    ensures
        text@ == base32_encoded(bytes@),
        text@.len() == 52,
        forall|i: int| 0 <= i < 52 ==> is_base32(#[trigger] text@[i]),
        base32_decoded(text@) == Some(bytes@),
{
    data_encoding::BASE32_NOPAD.encode(bytes)
}

/// `data_encoding::Encoding::decode` of `BASE32_NOPAD`: the bytes behind a text.
/// Far longer input would panic.
#[verifier::external_body]
pub(crate) fn base32_decode(text: &str) -> (bytes: Option<Vec<u8>>)
    requires
        encode_utf8(text@).len() <= 1024,
    ensures
        match bytes {
            Some(bytes) => base32_decoded(text@) == Some(bytes@),
            None => base32_decoded(text@) is None,
        },
{
    data_encoding::BASE32_NOPAD.decode(text.as_bytes()).ok()
}

/// What `String::from_utf8_lossy` makes of bytes that are not UTF-8.
pub uninterp spec fn utf8_replaced(bytes: Seq<u8>) -> Seq<char>;

/// The text that some bytes stand for, with replacement characters where they
/// are not UTF-8.
pub open spec fn utf8_lossy(bytes: Seq<u8>) -> Seq<char> {
    if valid_utf8(bytes) {
        decode_utf8(bytes)
    } else {
        utf8_replaced(bytes)
    }
}

/// `String::from_utf8_lossy`: the text that some bytes stand for. Bytes that are
/// UTF-8 throughout stand for exactly their text.
#[verifier::external_body]
pub(crate) fn lossy_text(bytes: &[u8]) -> (text: String)
    ensures
        valid_utf8(bytes@) ==> text@ == decode_utf8(bytes@),
        !valid_utf8(bytes@) ==> text@ == utf8_replaced(bytes@),
{
    String::from_utf8_lossy(bytes).into_owned()
}

/// `std::str::from_utf8`: the text that some bytes stand for, if they are UTF-8
/// throughout.
#[verifier::external_body]
pub(crate) fn strict_text(bytes: &[u8]) -> (text: Option<String>)
    ensures
        match text {
            Some(text) => valid_utf8(bytes@) && text@ == decode_utf8(bytes@),
            None => !valid_utf8(bytes@),
        },
{
    std::str::from_utf8(bytes).ok().map(str::to_string)
}

} // verus!
