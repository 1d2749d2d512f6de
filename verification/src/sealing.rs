//! Authenticated encryption: XChaCha20-Poly1305, which is symmetric and therefore
//! already quantum-resistant.
use chacha20poly1305::aead::{Aead, KeyInit, Payload};
use chacha20poly1305::{XChaCha20Poly1305, XNonce};
use vstd::prelude::*;

#[allow(unused_imports)]
use crate::codec::{b64_decoded, b64_encoded};
use crate::codec::{b64_decode, b64_encode};
use crate::random::os_random_bytes;

verus! {

/// The longest text that one nonce can seal: the block counter allows for no
/// more.
pub const MAX_SEALED_BYTES: u64 = 274_877_906_816;

/// Bytes of a nonce.
pub const NONCE_LEN: usize = 24;

/// What XChaCha20-Poly1305 makes of a text under a key and a nonce, with some
/// associated data.
pub uninterp spec fn xchacha_sealed(
    key: Seq<u8>,
    nonce: Seq<u8>,
    aad: Seq<u8>,
    plain: Seq<u8>,
) -> Seq<u8>;

/// What XChaCha20-Poly1305 reads from a sealed text, if it is authentic.
pub uninterp spec fn xchacha_opened(
    key: Seq<u8>,
    nonce: Seq<u8>,
    aad: Seq<u8>,
    cipher: Seq<u8>,
) -> Option<Seq<u8>>;

/// `Aead::encrypt` of `XChaCha20Poly1305` (crate `chacha20poly1305`): seals a
/// text, which makes it sixteen bytes longer, and the same key, nonce and
/// associated data open it again. It succeeds on every text of the allowed
/// length; a longer one fails or panics, and so does a nonce of another length.
#[verifier::external_body]
fn xchacha_seal(key: &[u8; 32], nonce: &[u8], aad: &[u8], plain: &[u8]) -> (cipher: Vec<u8>)
    requires
        nonce@.len() == NONCE_LEN,
        plain@.len() <= MAX_SEALED_BYTES,
    ensures
        cipher@ == xchacha_sealed(key@, nonce@, aad@, plain@),
        cipher@.len() == plain@.len() + 16,
        xchacha_opened(key@, nonce@, aad@, cipher@) == Some(plain@),
{
    XChaCha20Poly1305::new(key.into())
        .encrypt(XNonce::from_slice(nonce), Payload { msg: plain, aad })
        .unwrap()
}

/// `Aead::decrypt` of `XChaCha20Poly1305` (crate `chacha20poly1305`): opens a
/// sealed text, which makes it sixteen bytes shorter, and refuses one that is not
/// authentic. A far longer one could panic, and so does a nonce of another
/// length.
#[verifier::external_body]
fn xchacha_open(key: &[u8; 32], nonce: &[u8], aad: &[u8], cipher: &[u8]) -> (plain: Option<Vec<u8>>)
    requires
        nonce@.len() == NONCE_LEN,
        cipher@.len() <= MAX_SEALED_BYTES + 16,
    ensures
        match plain {
            Some(plain) => xchacha_opened(key@, nonce@, aad@, cipher@) == Some(plain@)
                && plain@.len() + 16 == cipher@.len(),
            None => xchacha_opened(key@, nonce@, aad@, cipher@) is None,
        },
{
    XChaCha20Poly1305::new(key.into())
        .decrypt(XNonce::from_slice(nonce), Payload { msg: cipher, aad })
        .ok()
}

/// What a text is sealed to under a key and a nonce, if it is not too long.
pub open spec fn sealed_to(key: Seq<u8>, nonce: Seq<u8>, aad: Seq<u8>, plain: Seq<u8>) -> Option<
    Seq<u8>,
> {
    if plain.len() <= MAX_SEALED_BYTES {
        Some(xchacha_sealed(key, nonce, aad, plain))
    } else {
        None
    }
}

/// What a sealed text opens to, if it is authentic and not too long.
pub open spec fn opens_to(key: Seq<u8>, nonce: Seq<u8>, aad: Seq<u8>, cipher: Seq<u8>) -> Option<
    Seq<u8>,
> {
    if cipher.len() <= MAX_SEALED_BYTES + 16 {
        xchacha_opened(key, nonce, aad, cipher)
    } else {
        None
    }
}

/// Seals a text under a key and a nonce, with some associated data.
pub fn seal_with(key: &[u8; 32], nonce: &[u8], aad: &[u8], plain: &[u8]) -> (cipher: Option<
    Vec<u8>,
>)
    requires
        nonce@.len() == NONCE_LEN,
    ensures
        cipher is Some == (plain@.len() <= MAX_SEALED_BYTES),
        cipher matches Some(cipher) ==> {
            &&& sealed_to(key@, nonce@, aad@, plain@) == Some(cipher@)
            &&& cipher@.len() == plain@.len() + 16
            &&& opens_to(key@, nonce@, aad@, cipher@) == Some(plain@)
        },
{
    if plain.len() as u64 > MAX_SEALED_BYTES {
        return None;
    }
    Some(xchacha_seal(key, nonce, aad, plain))
}

/// Opens a sealed text.
pub fn open_with(key: &[u8; 32], nonce: &[u8], aad: &[u8], cipher: &[u8]) -> (plain: Option<
    Vec<u8>,
>)
    requires
        nonce@.len() == NONCE_LEN,
    ensures
        match plain {
            Some(plain) => opens_to(key@, nonce@, aad@, cipher@) == Some(plain@),
            None => opens_to(key@, nonce@, aad@, cipher@) is None,
        },
{
    if cipher.len() as u64 > MAX_SEALED_BYTES + 16 {
        return None;
    }
    xchacha_open(key, nonce, aad, cipher)
}

/// A nonce in front of what was sealed under it, as text.
pub open spec fn boxed(key: Seq<u8>, nonce: Seq<u8>, plain: Seq<u8>) -> Seq<char> {
    b64_encoded(nonce + xchacha_sealed(key, nonce, Seq::empty(), plain))
}

/// Whether a text is base64 of as many bytes as a box with so many bytes in it takes:
/// the nonce, the bytes themselves, and the tag.
pub open spec fn box_of_size(text: Seq<char>, n: nat) -> bool {
    b64_decoded(text) is Some && b64_decoded(text)->0.len() == NONCE_LEN + n + 16
}

/// Why a box does not open.
#[derive(Clone, Copy, Debug, PartialEq, Eq, Structural)]
pub enum BoxFault {
    /// It is not a box.
    Corrupt,
    /// It was not sealed with this key.
    WrongKey,
}

/// What a box holds.
pub open spec fn unboxed(key: Seq<u8>, text: Seq<char>) -> Result<Seq<u8>, BoxFault> {
    match b64_decoded(text) {
        Some(raw) if raw.len() >= NONCE_LEN => match opens_to(
            key,
            raw.take(NONCE_LEN as int),
            Seq::empty(),
            raw.skip(NONCE_LEN as int),
        ) {
            Some(plain) => Ok(plain),
            None => Err(BoxFault::WrongKey),
        },
        _ => Err(BoxFault::Corrupt),
    }
}

/// Seals a text under a nonce, and puts the nonce in front: base64 of both.
pub fn box_with(key: &[u8; 32], nonce: &Vec<u8>, plain: &[u8]) -> (text: Option<String>)
    requires
        nonce@.len() == NONCE_LEN,
    ensures
        text is Some == (plain@.len() <= MAX_SEALED_BYTES),
        text matches Some(text) ==> {
            &&& text@ == boxed(key@, nonce@, plain@)
            &&& box_of_size(text@, plain@.len())
            &&& unboxed(key@, text@) == Ok::<Seq<u8>, BoxFault>(plain@)
        },
{
    let none: [u8; 0] = [];
    assert(none@ =~= Seq::<u8>::empty());
    match seal_with(key, nonce.as_slice(), &none, plain) {
        None => None,
        Some(cipher) => {
            let mut raw: Vec<u8> = Vec::new();
            raw.extend_from_slice(nonce.as_slice());
            raw.extend_from_slice(cipher.as_slice());
            proof {
                assert(raw@ =~= nonce@ + cipher@);
                assert(raw@.take(NONCE_LEN as int) =~= nonce@);
                assert(raw@.skip(NONCE_LEN as int) =~= cipher@);
            }
            Some(b64_encode(raw.as_slice()))
        },
    }
}

/// Seals a text under a fresh nonce.
pub fn box_up(key: &[u8; 32], plain: &[u8]) -> (text: Option<String>)
    ensures
        text is Some == (plain@.len() <= MAX_SEALED_BYTES),
        text matches Some(text) ==> {
            &&& exists|nonce: Seq<u8>|
                nonce.len() == NONCE_LEN && text@ == #[trigger] boxed(key@, nonce, plain@)
            &&& box_of_size(text@, plain@.len())
            &&& unboxed(key@, text@) == Ok::<Seq<u8>, BoxFault>(plain@)
        },
{
    let nonce = os_random_bytes(NONCE_LEN);
    assert(nonce@.len() == NONCE_LEN);
    box_with(key, &nonce, plain)
}

/// Opens a box.
pub fn unbox(key: &[u8; 32], text: &str) -> (plain: Result<Vec<u8>, BoxFault>)
    ensures
        match plain {
            Ok(plain) => unboxed(key@, text@) == Ok::<Seq<u8>, BoxFault>(plain@),
            Err(fault) => unboxed(key@, text@) == Err::<Seq<u8>, BoxFault>(fault),
        },
{
    let raw = match b64_decode(text) {
        Some(raw) => raw,
        None => {
            return Err(BoxFault::Corrupt);
        },
    };
    if raw.len() < NONCE_LEN {
        return Err(BoxFault::Corrupt);
    }
    let (nonce, cipher) = raw.as_slice().split_at(NONCE_LEN);
    let none: [u8; 0] = [];
    proof {
        assert(none@ =~= Seq::<u8>::empty());
        assert(nonce@ =~= raw@.take(NONCE_LEN as int));
        assert(cipher@ =~= raw@.skip(NONCE_LEN as int));
    }
    match open_with(key, nonce, &none, cipher) {
        Some(plain) => Ok(plain),
        None => Err(BoxFault::WrongKey),
    }
}

/// A key made of random bytes, all 32 of them as they came. Nothing is claimed of
/// the bytes: they are left to chance.
pub fn fresh_key() -> (key: [u8; 32]) {
    let bytes = os_random_bytes(32);
    match key_from(&bytes) {
        Some(key) => key,
        None => {
            assert(false);
            [0; 32]
        },
    }
}

/// The key that some bytes make, if there are as many as it takes.
pub fn key_from(bytes: &Vec<u8>) -> (key: Option<[u8; 32]>)
    ensures
        match key {
            Some(key) => key@ == bytes@,
            None => bytes@.len() != 32,
        },
{
    if bytes.len() != 32 {
        return None;
    }
    let mut key: [u8; 32] = [0; 32];
    let mut i: usize = 0;
    while i < 32
        invariant
            bytes@.len() == 32,
            i <= 32,
            forall|j: int| 0 <= j < i ==> key@[j] == bytes@[j],
        decreases 32 - i,
    {
        key[i] = bytes[i];
        i = i + 1;
    }
    assert(key@ =~= bytes@);
    Some(key)
}

/// A box is a nonce of 24 bytes and the ciphertext behind it, in base64.
pub proof fn a_box_is_a_nonce_and_a_cipher(key: Seq<u8>, text: Seq<char>, raw: Seq<u8>)
    requires
        b64_decoded(text) == Some(raw),
        24 <= raw.len() <= 24 + 274_877_906_816 + 16,
    ensures
        unboxed(key, text) is Ok <==> xchacha_opened(
            key,
            raw.take(24),
            Seq::empty(),
            raw.skip(24),
        ) is Some,
        unboxed(key, text) is Ok ==> unboxed(key, text)->Ok_0 == xchacha_opened(
            key,
            raw.take(24),
            Seq::empty(),
            raw.skip(24),
        )->0,
        unboxed(key, text) is Err ==> unboxed(key, text) == Err::<Seq<u8>, BoxFault>(
            BoxFault::WrongKey,
        ),
{
}

} // verus!
