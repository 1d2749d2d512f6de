//! Password hashes as the relay stores them.
use argon2::password_hash::{PasswordHash, PasswordHasher, PasswordVerifier, SaltString};
use argon2::Argon2;
#[allow(unused_imports)]
use vstd::utf8::encode_utf8;
use vstd::prelude::*;

use crate::random::random_bytes;
#[allow(unused_imports)]
use crate::text::has_prefix;

verus! {

/// The hash text that `Argon2::default()` makes of a password and a salt.
pub uninterp spec fn password_hashed(password: Seq<u8>, salt: Seq<u8>) -> Option<Seq<char>>;

/// Whether a password is the one behind a hash text; nothing where the text is
/// no hash.
pub uninterp spec fn password_checked(hash: Seq<char>, password: Seq<u8>) -> Option<bool>;

/// How a hash text starts that was made with the default cost.
pub open spec fn default_cost(hash: Seq<char>) -> bool {
    has_prefix(hash, "$argon2id$v=19$m=19456,t=2,p=1$"@)
}

/// `Argon2::default().hash_password` with the salt in base64, as text. It works
/// for every password that fits 32 bits in length; the text starts with the
/// algorithm, the version and the default cost; and `verify_password` accepts
/// the password for it. A salt of fewer than three bytes would panic.
#[verifier::external_body]
pub(crate) fn hash_with_salt(password: &str, salt: &Vec<u8>) -> (hash: Option<String>)
    requires
        salt@.len() == 16,
    ensures
        hash is Some == (encode_utf8(password@).len() <= 0xFFFF_FFFF),
        hash matches Some(text) ==> {
            &&& password_hashed(encode_utf8(password@), salt@) == Some(text@)
            &&& password_checked(text@, encode_utf8(password@)) == Some(true)
            &&& default_cost(text@)
        },
        hash is None ==> password_hashed(encode_utf8(password@), salt@) is None,
{
    let salt = SaltString::encode_b64(salt).ok()?;
    let hash = Argon2::default().hash_password(password.as_bytes(), &salt).ok()?;
    Some(hash.to_string())
}

/// `PasswordHash::new`, and `Argon2::default().verify_password` on what it
/// read: whether the password is the one behind the hash. The cost is read from
/// the text, and one out of all bounds could panic, so it has to be the default.
#[verifier::external_body]
pub(crate) fn check_password(hash: &str, password: &str) -> (checked: Option<bool>)
    requires
        default_cost(hash@),
    ensures
        checked == password_checked(hash@, encode_utf8(password@)),
{
    let parsed = PasswordHash::new(hash).ok()?;
    Some(Argon2::default().verify_password(password.as_bytes(), &parsed).is_ok())
}

/// A fresh hash of a password.
pub fn hash_password(password: &str) -> (hash: Option<String>)
    ensures
        hash is Some == (encode_utf8(password@).len() <= 0xFFFF_FFFF),
        hash matches Some(text) ==> {
            &&& exists|salt: Seq<u8>|
                salt.len() == 16 && #[trigger] password_hashed(encode_utf8(password@), salt)
                    == Some(text@)
            &&& password_checked(text@, encode_utf8(password@)) == Some(true)
            &&& default_cost(text@)
        },
{
    let salt = random_bytes(16);
    assert(salt@.len() == 16);
    hash_with_salt(password, &salt)
}

} // verus!
