//! Encryption of the local database at rest.
//!
//! Everything sensitive on disk is sealed with XChaCha20-Poly1305 under a key
//! generated on this device and never shared. The device key itself is kept next
//! to the database, wrapped by the operating system so that the file alone is
//! useless.
//!
//! What this does not defend against is code already running as that user: it can
//! ask the OS to unwrap the key exactly as the app does.
use vstd::slice::slice_to_vec;
#[allow(unused_imports)]
use vstd::utf8::{encode_utf8, encode_utf8_decode_utf8, encode_utf8_valid_utf8};
use vstd::prelude::*;

use crate::codec::lossy_text;
#[allow(unused_imports)]
use crate::codec::{b64_decoded, utf8_lossy};
use crate::sealing::{box_up, fresh_key, key_from, unbox, BoxFault};
use crate::text::join3;
#[allow(unused_imports)]
use crate::sealing::{box_of_size, boxed, unboxed, MAX_SEALED_BYTES, NONCE_LEN};

verus! {

/// Why a value cannot be sealed or opened.
#[derive(Clone, Copy, Debug, PartialEq, Eq, Structural)]
pub enum StorageError {
    /// The stored value is not a sealed one.
    Corrupt,
    /// The stored value was sealed with another key.
    WrongKey,
    /// The value is too long to be sealed.
    TooLong,
    /// The key file does not hold a key.
    CorruptKey,
    /// The data is encrypted, and its key file is gone.
    KeyMissing,
    /// Something is there twice that can only be there once.
    Duplicate,
}

impl StorageError {
    /// What is said of each error.
    pub open spec fn spec_message(self) -> Seq<char> {
        match self {
            StorageError::Corrupt => "corrupt local data"@,
            StorageError::WrongKey => "cannot decrypt local data with this device key"@,
            StorageError::TooLong => "cannot encrypt local data"@,
            StorageError::CorruptKey => "the device key file is corrupt"@,
            StorageError::KeyMissing => "the local data is encrypted with a device key that is missing"@,
            StorageError::Duplicate => "the same entry twice"@,
        }
    }

    /// What is said of the error.
    pub fn message(&self) -> (text: &'static str)
        ensures
            text@ == self.spec_message(),
    {
        match self {
            StorageError::Corrupt => "corrupt local data",
            StorageError::WrongKey => "cannot decrypt local data with this device key",
            StorageError::TooLong => "cannot encrypt local data",
            StorageError::CorruptKey => "the device key file is corrupt",
            StorageError::KeyMissing => "the local data is encrypted with a device key that is missing",
            StorageError::Duplicate => "the same entry twice",
        }
    }
}

/// What is said where the data is encrypted and its key file is gone: which data,
/// which file, and what can be done about it.
pub open spec fn key_missing_text(data: Seq<char>, key_file: Seq<char>) -> Seq<char> {
    "the local data in "@ + data + (" is encrypted with a device key that is missing ("@ + key_file
        + "). Move that folder aside to start over; the history can be restored with the recovery key."@)
}

/// What is said where the data is encrypted and its key file is gone.
pub fn key_missing_message(data: &str, key_file: &str) -> (text: String)
    ensures
        text@ == key_missing_text(data@, key_file@),
{
    let rest = join3(
        " is encrypted with a device key that is missing (",
        key_file,
        "). Move that folder aside to start over; the history can be restored with the recovery key.",
    );
    join3("the local data in ", data, &rest)
}

/// The per-device key protecting local storage.
pub struct DeviceKey(pub [u8; 32]);

/// What a sealed value opens to.
pub open spec fn opened(key: Seq<u8>, stored: Seq<char>) -> Result<Seq<u8>, StorageError> {
    match unboxed(key, stored) {
        Ok(plain) => Ok(plain),
        Err(BoxFault::Corrupt) => Err(StorageError::Corrupt),
        Err(BoxFault::WrongKey) => Err(StorageError::WrongKey),
    }
}

/// The bytes of a text stand for that text.
pub proof fn lemma_text_bytes(text: Seq<char>)
    ensures
        utf8_lossy(encode_utf8(text)) == text,
{
    encode_utf8_valid_utf8(text);
    encode_utf8_decode_utf8(text);
}

/// What is not base64, or too short to hold a nonce, opens under no key.
pub proof fn only_a_box_opens(key: Seq<u8>, stored: Seq<char>)
    requires
        b64_decoded(stored) is None || b64_decoded(stored)->0.len() < NONCE_LEN,
    ensures
        opened(key, stored) == Err::<Seq<u8>, StorageError>(StorageError::Corrupt),
{
}

impl DeviceKey {
    /// A fresh key, for a first run.
    pub fn create() -> (key: DeviceKey) {
        DeviceKey(fresh_key())
    }

    /// The key that a key file holds, once the operating system has unwrapped it.
    pub fn from_file(raw: &Vec<u8>) -> (key: Result<DeviceKey, StorageError>)
        ensures
            match key {
                Ok(key) => key.0@ == raw@,
                Err(e) => raw@.len() != 32 && e == StorageError::CorruptKey,
            },
    {
        match key_from(raw) {
            Some(key) => Ok(DeviceKey(key)),
            None => Err(StorageError::CorruptKey),
        }
    }

    /// A fixed key, for tests.
    pub fn for_test() -> (key: DeviceKey)
        ensures
            key.0@.len() == 32,
            forall|i: int| 0 <= i < 32 ==> key.0@[i] == 7,
    {
        DeviceKey([7u8; 32])
    }

    /// The same key again.
    pub fn copy(&self) -> (key: DeviceKey)
        ensures
            key.0@ == self.0@,
    {
        DeviceKey(self.0)
    }

    /// Seals a value for storage. Returns base64 of the nonce and the ciphertext.
    pub fn seal(&self, plaintext: &[u8]) -> (stored: Result<String, StorageError>)
        ensures
            plaintext@.len() > MAX_SEALED_BYTES ==> stored == Err::<String, StorageError>(
                StorageError::TooLong,
            ),
            plaintext@.len() <= MAX_SEALED_BYTES ==> {
                &&& stored is Ok
                &&& exists|nonce: Seq<u8>|
                    nonce.len() == NONCE_LEN && stored->Ok_0@ == #[trigger] boxed(
                        self.0@,
                        nonce,
                        plaintext@,
                    )
                &&& box_of_size(stored->Ok_0@, plaintext@.len())
                &&& opened(self.0@, stored->Ok_0@) == Ok::<Seq<u8>, StorageError>(plaintext@)
            },
    {
        match box_up(&self.0, plaintext) {
            Some(text) => Ok(text),
            None => Err(StorageError::TooLong),
        }
    }

    /// Opens a sealed value.
    pub fn open(&self, sealed: &str) -> (plain: Result<Vec<u8>, StorageError>)
        ensures
            match plain {
                Ok(plain) => opened(self.0@, sealed@) == Ok::<Seq<u8>, StorageError>(plain@),
                Err(e) => opened(self.0@, sealed@) == Err::<Seq<u8>, StorageError>(e),
            },
    {
        match unbox(&self.0, sealed) {
            Ok(plain) => Ok(plain),
            Err(BoxFault::Corrupt) => Err(StorageError::Corrupt),
            Err(BoxFault::WrongKey) => Err(StorageError::WrongKey),
        }
    }

    /// Convenience for the many text columns.
    pub fn seal_str(&self, text: &str) -> (stored: Result<String, StorageError>)
        ensures
            encode_utf8(text@).len() > MAX_SEALED_BYTES ==> stored == Err::<String, StorageError>(
                StorageError::TooLong,
            ),
            encode_utf8(text@).len() <= MAX_SEALED_BYTES ==> {
                &&& stored is Ok
                &&& exists|nonce: Seq<u8>|
                    nonce.len() == NONCE_LEN && stored->Ok_0@ == #[trigger] boxed(
                        self.0@,
                        nonce,
                        encode_utf8(text@),
                    )
                &&& box_of_size(stored->Ok_0@, encode_utf8(text@).len())
                &&& opened(self.0@, stored->Ok_0@) == Ok::<Seq<u8>, StorageError>(
                    encode_utf8(text@),
                )
                &&& utf8_lossy(opened(self.0@, stored->Ok_0@)->Ok_0) == text@
            },
    {
        proof {
            lemma_text_bytes(text@);
        }
        self.seal(text.as_bytes())
    }

    /// Opens a sealed text.
    pub fn open_str(&self, sealed: &str) -> (text: Result<String, StorageError>)
        ensures
            match text {
                Ok(text) => opened(self.0@, sealed@) is Ok && text@ == utf8_lossy(
                    opened(self.0@, sealed@)->Ok_0,
                ),
                Err(e) => opened(self.0@, sealed@) == Err::<Seq<u8>, StorageError>(e),
            },
    {
        match self.open(sealed) {
            Ok(plain) => Ok(lossy_text(plain.as_slice())),
            Err(e) => Err(e),
        }
    }
}

/// The device key as it is stored where the platform has no protection of its
/// own to offer.
pub fn wrap_key(key: &[u8]) -> (wrapped: Vec<u8>)
    ensures
        wrapped@ == key@,
{
    slice_to_vec(key)
}

/// The device key from what was stored.
pub fn unwrap_key(wrapped: &[u8]) -> (key: Vec<u8>)
    ensures
        key@ == wrapped@,
{
    slice_to_vec(wrapped)
}

} // verus!
