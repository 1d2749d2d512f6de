//! What is left to chance: keys, tokens, codes and identifiers.
use rand::{Rng, RngCore, TryRngCore};
#[allow(unused_imports)]
use vstd::utf8::encode_utf8;
use vstd::prelude::*;

use crate::codec::b64url_encode;
#[allow(unused_imports)]
use crate::codec::b64url_encoded;
#[allow(unused_imports)]
use crate::text::{digit, is_digit};

verus! {

/// `rand::RngCore::fill_bytes` on `rand::rng()`: fills a buffer with random
/// bytes. Nothing is claimed of the bytes but how many there are. A buffer out of
/// all bounds would panic.
#[verifier::external_body]
pub(crate) fn random_bytes(n: usize) -> (bytes: Vec<u8>)
    requires
        n <= 4096,
    ensures
        bytes@.len() == n,
{
    let mut bytes = vec![0u8; n];
    rand::rng().fill_bytes(&mut bytes);
    bytes
}

/// `rand::RngCore::fill_bytes` on `rand::rngs::OsRng`, which panics where the
/// operating system has no randomness to give: fills a buffer with random bytes.
/// Nothing is claimed of the bytes but how many there are. A buffer out of all
/// bounds would panic.
#[verifier::external_body]
pub(crate) fn os_random_bytes(n: usize) -> (bytes: Vec<u8>)
    requires
        n <= 4096,
    ensures
        bytes@.len() == n,
{
    let mut bytes = vec![0u8; n];
    rand::rngs::OsRng.unwrap_err().fill_bytes(&mut bytes);
    bytes
}

/// `rand::Rng::random_range` on `rand::rng()`, from zero up to but without
/// `bound`: a random number in that range. An empty range would panic.
#[verifier::external_body]
pub(crate) fn random_below(bound: u32) -> (n: u32)
    requires
        bound > 0,
    ensures
        n < bound,
{
    rand::rng().random_range(0..bound)
}

/// `uuid::Uuid::new_v4` as text: a random identifier in the hyphenated form,
/// which has 36 characters of one byte each.
#[verifier::external_body]
pub(crate) fn fresh_id() -> (id: String)
    ensures
        id@.len() == 36,
        encode_utf8(id@).len() == 36,
{
    uuid::Uuid::new_v4().to_string()
}

/// The digits of a number, with zeros in front to make `width` characters.
pub open spec fn zero_padded(n: nat, width: nat) -> Seq<char>
    decreases width,
{
    if width == 0 {
        Seq::empty()
    } else {
        zero_padded(n / 10, (width - 1) as nat).push(digit(n % 10))
    }
}

/// The last `width` digits of a number.
fn padded(n: u32, width: u32) -> (text: String)
    ensures
        text@ == zero_padded(n as nat, width as nat),
        text@.len() == width,
        forall|i: int| 0 <= i < width ==> is_digit(#[trigger] text@[i]),
    decreases width,
{
    if width == 0 {
        String::new()
    } else {
        let mut text = padded(n / 10, width - 1);
        let ghost before = text@;
        let d: u8 = (n % 10) as u8;
        text.push((48u8 + d) as char);
        assert(text@ == before.push(digit(d as nat)));
        text
    }
}

/// A code of six digits from a number below a million.
pub fn six_digits(n: u32) -> (code: String)
    requires
        n < 1_000_000,
    ensures
        code@ == zero_padded(n as nat, 6),
        code@.len() == 6,
        forall|i: int| 0 <= i < 6 ==> is_digit(#[trigger] code@[i]),
{
    padded(n, 6)
}

/// A fresh six-digit code.
pub fn new_code() -> (code: String)
    ensures
        exists|n: nat| n < 1_000_000 && code@ == #[trigger] zero_padded(n, 6),
{
    let n: u32 = random_below(1_000_000);
    assert((n as nat) < 1_000_000);
    six_digits(n)
}

/// A fresh session token: 32 random bytes in URL-safe letters.
pub fn new_token() -> (token: String)
    ensures
        exists|raw: Seq<u8>| raw.len() == 32 && token@ == #[trigger] b64url_encoded(raw),
{
    let raw = random_bytes(32);
    assert(raw@.len() == 32);
    b64url_encode(&raw)
}

/// So many tens, multiplied.
pub open spec fn tens(n: nat) -> nat
    decreases n,
{
    if n == 0 {
        1
    } else {
        10 * tens((n - 1) as nat)
    }
}

/// A padded number has the width, and is still the number.
pub proof fn a_padded_number_is_the_number(n: nat, width: nat)
    requires
        n < tens(width),
    ensures
        zero_padded(n, width).len() == width,
        crate::text::digits_value(zero_padded(n, width)) == n,
    decreases width,
{
    if width > 0 {
        a_padded_number_is_the_number(n / 10, (width - 1) as nat);
        let text = zero_padded(n, width);
        assert(text.drop_last() =~= zero_padded(n / 10, (width - 1) as nat));
        assert(crate::text::digit_value(digit(n % 10)) == n % 10);
    }
}

/// Different numbers make different codes.
pub proof fn codes_are_told_apart(a: nat, b: nat)
    requires
        a < 1_000_000,
        b < 1_000_000,
        a != b,
    ensures
        zero_padded(a, 6) != zero_padded(b, 6),
{
    reveal_with_fuel(tens, 7);
    a_padded_number_is_the_number(a, 6);
    a_padded_number_is_the_number(b, 6);
}

} // verus!
