//! Exporting and importing conversations.
//!
//! The server keeps no history: what a device holds is what it received. To move
//! conversations to another device the user exports them to a file and imports it
//! there. The file is the whole of the protection, so it is built to be attacked:
//! the password is turned into a key with Argon2id, which is memory-hard; the
//! contents are sealed with XChaCha20-Poly1305; and the header, with the Argon2
//! cost in it, is authenticated along with the contents, so it cannot be edited
//! down to something cheap to crack.
use argon2::{Algorithm, Argon2, Params, Version};
use vstd::bytes::{u32_from_le_bytes, u32_to_le_bytes};
#[allow(unused_imports)]
use vstd::bytes::{
    lemma_auto_spec_u32_to_from_le_bytes, spec_u32_from_le_bytes, spec_u32_to_le_bytes,
};
use vstd::slice::slice_subrange;
#[allow(unused_imports)]
use vstd::utf8::{decode_utf8, encode_utf8, encode_utf8_decode_utf8, encode_utf8_valid_utf8, valid_utf8};
use vstd::prelude::*;

use crate::codec::strict_text;
#[allow(unused_imports)]
use crate::export_json::{export_in, export_json, ExportView};
use crate::export_json::{read_export, write_export, Export};
use crate::random::os_random_bytes;
use crate::sealing::{open_with, seal_with, NONCE_LEN};
#[allow(unused_imports)]
use crate::sealing::{opens_to, xchacha_sealed, MAX_SEALED_BYTES};
use crate::text::chars_of;

verus! {

/// The layout. Another number means another layout, not a corrupt file.
pub const VERSION: u8 = 1;

/// Argon2id cost. Memory is what makes guessing expensive, so it carries the
/// weight.
pub const MEMORY_KIB: u32 = 65_536;

/// Passes over the memory.
pub const PASSES: u32 = 8;

/// Lanes of the memory.
pub const LANES: u32 = 1;

/// Bytes of the salt.
pub const SALT_LEN: usize = 16;

/// Everything before the ciphertext: magic, version, the three costs, salt and
/// nonce. Authenticated as associated data.
pub const HEADER_LEN: usize = 69;

/// Shortest password that an export accepts.
pub const MIN_PASSWORD_LEN: usize = 10;

/// Why conversations cannot be exported or imported.
#[derive(Clone, Copy, Debug, PartialEq, Eq, Structural)]
pub enum TransferError {
    /// The password is too short.
    PasswordTooShort,
    /// The password is too long, or the cost makes no sense.
    KeyDerivation,
    /// There is too much to seal.
    TooLong,
    /// The file is none of ours.
    NotAnExport,
    /// The file has a layout we do not know.
    UnsupportedVersion,
    /// The password is wrong, or the file is damaged.
    WrongPassword,
}

impl TransferError {
    /// What is said of each error.
    pub open spec fn spec_message(self) -> Seq<char> {
        match self {
            TransferError::PasswordTooShort => "export_password_too_short"@,
            TransferError::KeyDerivation => "bad key derivation parameters"@,
            TransferError::TooLong => "cannot encrypt the export"@,
            TransferError::NotAnExport => "import_not_an_export"@,
            TransferError::UnsupportedVersion => "import_unsupported_version"@,
            TransferError::WrongPassword => "import_wrong_password"@,
        }
    }

    /// What is said of the error.
    pub fn message(&self) -> (text: &'static str)
        ensures
            text@ == self.spec_message(),
    {
        match self {
            TransferError::PasswordTooShort => "export_password_too_short",
            TransferError::KeyDerivation => "bad key derivation parameters",
            TransferError::TooLong => "cannot encrypt the export",
            TransferError::NotAnExport => "import_not_an_export",
            TransferError::UnsupportedVersion => "import_unsupported_version",
            TransferError::WrongPassword => "import_wrong_password",
        }
    }
}

/// The key that Argon2id makes of a password and a salt at a cost.
pub uninterp spec fn argon2id_key(
    password: Seq<u8>,
    salt: Seq<u8>,
    memory_kib: u32,
    passes: u32,
    lanes: u32,
) -> Seq<u8>;

/// Whether Argon2id takes a cost and a password.
pub open spec fn cost_makes_sense(
    password: Seq<u8>,
    memory_kib: u32,
    passes: u32,
    lanes: u32,
) -> bool {
    memory_kib >= 8 && memory_kib >= lanes * 8 && passes >= 1 && lanes >= 1 && password.len()
        <= 0xFFFF_FFFF
}

/// `Params::new` and `Argon2::hash_password_into` (crate `argon2`), version 0x13,
/// for 32 bytes: the key behind a password. It works where every lane has eight
/// blocks of memory, there is at least one lane and one pass, and the password
/// fits 32 bits in length. A number of lanes out of all bounds could panic, and
/// so could a memory that the machine does not have.
#[verifier::external_body]
fn argon2id(password: &str, salt: &[u8], memory_kib: u32, passes: u32, lanes: u32) -> (key: Option<
    [u8; 32],
>)
    requires
        salt@.len() == SALT_LEN,
        memory_kib <= 1_048_576,
        lanes <= 16,
    ensures
        key is Some == cost_makes_sense(encode_utf8(password@), memory_kib, passes, lanes),
        key matches Some(key) ==> key@ == argon2id_key(
            encode_utf8(password@),
            salt@,
            memory_kib,
            passes,
            lanes,
        ),
{
    let params = Params::new(memory_kib, passes, lanes, Some(32)).ok()?;
    let argon = Argon2::new(Algorithm::Argon2id, Version::V0x13, params);
    let mut key = [0u8; 32];
    argon.hash_password_into(password.as_bytes(), salt, &mut key).ok()?;
    Some(key)
}

/// The bytes that mark a file as ours.
pub open spec fn magic() -> Seq<u8> {
    seq![
        72u8, 85, 83, 72, 45, 67, 72, 65, 84, 45, 69, 88, 80, 79, 82, 84,
    ]
}

/// The header of a file.
pub open spec fn header(
    memory_kib: u32,
    passes: u32,
    lanes: u32,
    salt: Seq<u8>,
    nonce: Seq<u8>,
) -> Seq<u8> {
    magic() + seq![VERSION] + spec_u32_to_le_bytes(memory_kib) + spec_u32_to_le_bytes(passes)
        + spec_u32_to_le_bytes(lanes) + salt + nonce
}

/// What a file says of itself.
pub struct Header {
    pub memory_kib: u32,
    pub passes: u32,
    pub lanes: u32,
    pub salt: Seq<u8>,
    pub nonce: Seq<u8>,
}

/// Reads what a file says of itself. A file asking for a gigabyte would take the
/// app down with it before the password was ever wrong.
pub open spec fn header_in(bytes: Seq<u8>) -> Result<Header, TransferError> {
    let memory_kib = spec_u32_from_le_bytes(bytes.subrange(17, 21));
    let passes = spec_u32_from_le_bytes(bytes.subrange(21, 25));
    let lanes = spec_u32_from_le_bytes(bytes.subrange(25, 29));
    if bytes.len() < HEADER_LEN || bytes.take(16) != magic() {
        Err(TransferError::NotAnExport)
    } else if bytes[16] != VERSION {
        Err(TransferError::UnsupportedVersion)
    } else if memory_kib > 1_048_576 || passes == 0 || passes > 64 || lanes == 0 || lanes > 16 {
        Err(TransferError::NotAnExport)
    } else {
        Ok(
            Header {
                memory_kib,
                passes,
                lanes,
                salt: bytes.subrange(29, 45),
                nonce: bytes.subrange(45, 69),
            },
        )
    }
}

/// What a file holds behind its header, for a password: the contents as they were
/// packed.
pub open spec fn contents_behind(bytes: Seq<u8>, password: Seq<char>) -> Result<
    Seq<u8>,
    TransferError,
> {
    match header_in(bytes) {
        Err(e) => Err(e),
        Ok(h) => if !cost_makes_sense(encode_utf8(password), h.memory_kib, h.passes, h.lanes) {
            Err(TransferError::KeyDerivation)
        } else {
            match opens_to(
                argon2id_key(encode_utf8(password), h.salt, h.memory_kib, h.passes, h.lanes),
                h.nonce,
                bytes.take(HEADER_LEN as int),
                bytes.skip(HEADER_LEN as int),
            ) {
                Some(plain) => Ok(plain),
                None => Err(TransferError::WrongPassword),
            }
        },
    }
}

/// The conversations in a file, for a password. A wrong password is
/// indistinguishable from a damaged file.
pub open spec fn imported(bytes: Seq<u8>, password: Seq<char>) -> Result<ExportView, TransferError> {
    match contents_behind(bytes, password) {
        Err(e) => Err(e),
        Ok(plain) => if valid_utf8(plain) && export_in(decode_utf8(plain)) is Some {
            Ok(export_in(decode_utf8(plain))->0)
        } else {
            Err(TransferError::WrongPassword)
        },
    }
}

/// What it costs to turn a password into a key.
pub struct Cost {
    pub memory_kib: u32,
    pub passes: u32,
    pub lanes: u32,
}

/// The cost that exports are made at.
pub open spec fn spec_usual_cost() -> Cost {
    Cost { memory_kib: MEMORY_KIB, passes: PASSES, lanes: LANES }
}

/// The cost that exports are made at.
pub fn usual_cost() -> (cost: Cost)
    ensures
        cost == spec_usual_cost(),
{
    Cost { memory_kib: MEMORY_KIB, passes: PASSES, lanes: LANES }
}

/// Whether a file that asks for a cost is opened.
pub open spec fn is_affordable(cost: Cost) -> bool {
    cost.memory_kib <= 1_048_576 && 0 < cost.passes <= 64 && 0 < cost.lanes <= 16
}

/// Why contents cannot be exported under a password at a cost, if so.
pub open spec fn refusal_at(contents: Seq<u8>, password: Seq<char>, cost: Cost) -> Option<
    TransferError,
> {
    if password.len() < MIN_PASSWORD_LEN {
        Some(TransferError::PasswordTooShort)
    } else if !cost_makes_sense(
        encode_utf8(password),
        cost.memory_kib,
        cost.passes,
        cost.lanes,
    ) {
        Some(TransferError::KeyDerivation)
    } else if contents.len() > MAX_SEALED_BYTES {
        Some(TransferError::TooLong)
    } else {
        None
    }
}

/// Why contents cannot be exported under a password, if so.
pub open spec fn export_refusal(contents: Seq<u8>, password: Seq<char>) -> Option<TransferError> {
    refusal_at(contents, password, spec_usual_cost())
}

/// A file: the header, and behind it the contents, sealed under the key that the
/// password makes, with the header as associated data.
pub open spec fn file_at(
    contents: Seq<u8>,
    password: Seq<char>,
    salt: Seq<u8>,
    nonce: Seq<u8>,
    cost: Cost,
) -> Seq<u8> {
    let front = header(cost.memory_kib, cost.passes, cost.lanes, salt, nonce);
    front + xchacha_sealed(
        argon2id_key(encode_utf8(password), salt, cost.memory_kib, cost.passes, cost.lanes),
        nonce,
        front,
        contents,
    )
}

/// A file at the usual cost.
pub open spec fn export_file(
    contents: Seq<u8>,
    password: Seq<char>,
    salt: Seq<u8>,
    nonce: Seq<u8>,
) -> Seq<u8> {
    file_at(contents, password, salt, nonce, spec_usual_cost())
}

/// The bytes that mark a file as ours.
fn magic_bytes() -> (bytes: [u8; 16])
    ensures
        bytes@ == magic(),
{
    let bytes: [u8; 16] = [72, 85, 83, 72, 45, 67, 72, 65, 84, 45, 69, 88, 80, 79, 82, 84];
    assert(bytes@ =~= magic());
    bytes
}

/// Writes a header.
fn write_header(cost: &Cost, salt: &Vec<u8>, nonce: &Vec<u8>) -> (bytes: Vec<u8>)
    requires
        salt@.len() == SALT_LEN,
        nonce@.len() == NONCE_LEN,
    ensures
        bytes@ == header(cost.memory_kib, cost.passes, cost.lanes, salt@, nonce@),
        bytes@.len() == HEADER_LEN,
{
    let mut bytes: Vec<u8> = Vec::new();
    let magic_part = magic_bytes();
    let memory = u32_to_le_bytes(cost.memory_kib);
    let passes = u32_to_le_bytes(cost.passes);
    let lanes = u32_to_le_bytes(cost.lanes);
    bytes.extend_from_slice(&magic_part);
    bytes.push(VERSION);
    bytes.extend_from_slice(memory.as_slice());
    bytes.extend_from_slice(passes.as_slice());
    bytes.extend_from_slice(lanes.as_slice());
    bytes.extend_from_slice(salt.as_slice());
    bytes.extend_from_slice(nonce.as_slice());
    proof {
        assert(bytes@ =~= header(cost.memory_kib, cost.passes, cost.lanes, salt@, nonce@));
    }
    bytes
}

/// A header that was written reads back as it was.
proof fn lemma_header_reads_back(cost: Cost, salt: Seq<u8>, nonce: Seq<u8>, rest: Seq<u8>)
    requires
        salt.len() == SALT_LEN,
        nonce.len() == NONCE_LEN,
        is_affordable(cost),
    ensures
        header_in(header(cost.memory_kib, cost.passes, cost.lanes, salt, nonce) + rest) == Ok::<
            Header,
            TransferError,
        >(Header { memory_kib: cost.memory_kib, passes: cost.passes, lanes: cost.lanes, salt, nonce }),
{
    lemma_auto_spec_u32_to_from_le_bytes();
    let front = header(cost.memory_kib, cost.passes, cost.lanes, salt, nonce);
    let bytes = front + rest;
    assert(spec_u32_to_le_bytes(cost.memory_kib).len() == 4);
    assert(spec_u32_to_le_bytes(cost.passes).len() == 4);
    assert(spec_u32_to_le_bytes(cost.lanes).len() == 4);
    assert(front.len() == HEADER_LEN);
    assert(bytes.take(16) =~= magic());
    assert(bytes[16] == VERSION);
    assert(bytes.subrange(17, 21) =~= spec_u32_to_le_bytes(cost.memory_kib));
    assert(bytes.subrange(21, 25) =~= spec_u32_to_le_bytes(cost.passes));
    assert(bytes.subrange(25, 29) =~= spec_u32_to_le_bytes(cost.lanes));
    assert(bytes.subrange(29, 45) =~= salt);
    assert(bytes.subrange(45, 69) =~= nonce);
}

/// A file is opened by nothing but its cipher: under any password it either opens
/// to what the cipher gives for the key that the password makes, or the password is
/// called wrong.
pub proof fn a_file_opens_where_its_cipher_does(
    contents: Seq<u8>,
    password: Seq<char>,
    salt: Seq<u8>,
    nonce: Seq<u8>,
    cost: Cost,
    tried: Seq<char>,
)
    requires
        salt.len() == SALT_LEN,
        nonce.len() == NONCE_LEN,
        is_affordable(cost),
        cost_makes_sense(encode_utf8(tried), cost.memory_kib, cost.passes, cost.lanes),
    ensures
        ({
            let file = file_at(contents, password, salt, nonce, cost);
            let front = header(cost.memory_kib, cost.passes, cost.lanes, salt, nonce);
            let opened = opens_to(
                argon2id_key(encode_utf8(tried), salt, cost.memory_kib, cost.passes, cost.lanes),
                nonce,
                front,
                xchacha_sealed(
                    argon2id_key(
                        encode_utf8(password),
                        salt,
                        cost.memory_kib,
                        cost.passes,
                        cost.lanes,
                    ),
                    nonce,
                    front,
                    contents,
                ),
            );
            &&& contents_behind(file, tried) == match opened {
                Some(plain) => Ok::<Seq<u8>, TransferError>(plain),
                None => Err(TransferError::WrongPassword),
            }
            &&& opened is None ==> imported(file, tried) == Err::<ExportView, TransferError>(
                TransferError::WrongPassword,
            )
            &&& imported(file, tried) matches Err(e) ==> e == TransferError::WrongPassword
        }),
{
    let front = header(cost.memory_kib, cost.passes, cost.lanes, salt, nonce);
    let file = file_at(contents, password, salt, nonce, cost);
    let cipher = file.skip(front.len() as int);
    lemma_header_reads_back(cost, salt, nonce, cipher);
    lemma_auto_spec_u32_to_from_le_bytes();
    assert(spec_u32_to_le_bytes(cost.memory_kib).len() == 4);
    assert(spec_u32_to_le_bytes(cost.passes).len() == 4);
    assert(spec_u32_to_le_bytes(cost.lanes).len() == 4);
    assert(front.len() == HEADER_LEN);
    assert(file =~= front + cipher);
    assert(file.take(HEADER_LEN as int) =~= front);
    assert(cipher =~= xchacha_sealed(
        argon2id_key(encode_utf8(password), salt, cost.memory_kib, cost.passes, cost.lanes),
        nonce,
        front,
        contents,
    ));
}

/// The whole header is authenticated: whatever bytes open under a password, the
/// cipher accepted all that follows the header with all of the header as associated
/// data, under the key of the very cost and salt that the header names. A cost that
/// was edited down is put to the cipher as it stands.
pub proof fn the_whole_header_is_authenticated(bytes: Seq<u8>, password: Seq<char>)
    requires
        imported(bytes, password) is Ok,
    ensures
        header_in(bytes) is Ok,
        ({
            let h = header_in(bytes)->Ok_0;
            opens_to(
                argon2id_key(encode_utf8(password), h.salt, h.memory_kib, h.passes, h.lanes),
                h.nonce,
                bytes.take(HEADER_LEN as int),
                bytes.skip(HEADER_LEN as int),
            ) is Some
        }),
{
}

/// Whether bytes are there at a place.
fn has_magic(bytes: &[u8]) -> (yes: bool)
    requires
        bytes@.len() >= 16,
    ensures
        yes == (bytes@.take(16) == magic()),
{
    let wanted = magic_bytes();
    let mut i: usize = 0;
    while i < 16
        invariant
            i <= 16,
            bytes@.len() >= 16,
            wanted@ == magic(),
            forall|j: int| 0 <= j < i ==> bytes@[j] == magic()[j],
        decreases 16 - i,
    {
        if bytes[i] != wanted[i] {
            assert(bytes@.take(16)[i as int] != magic()[i as int]);
            return false;
        }
        i = i + 1;
    }
    assert(bytes@.take(16) =~= magic());
    true
}

/// Seals contents under a password at a cost, with a salt and a nonce. The cost is
/// written into the file, so it can be raised later without making old exports
/// unreadable.
///
/// Slow on purpose: the derivation is the same work an attacker has to repeat for
/// every password they try.
pub fn export_at(contents: &[u8], password: &str, salt: &Vec<u8>, nonce: &Vec<u8>, cost: &Cost) -> (file:
    Result<Vec<u8>, TransferError>)
    requires
        salt@.len() == SALT_LEN,
        nonce@.len() == NONCE_LEN,
        is_affordable(*cost),
    ensures
        match refusal_at(contents@, password@, *cost) {
            Some(e) => file == Err::<Vec<u8>, TransferError>(e),
            None => {
                &&& file is Ok
                &&& file->Ok_0@ == file_at(contents@, password@, salt@, nonce@, *cost)
                &&& file->Ok_0@.len() == HEADER_LEN + contents@.len() + 16
                &&& contents_behind(file->Ok_0@, password@) == Ok::<Seq<u8>, TransferError>(
                    contents@,
                )
            },
        },
{
    if chars_of(password).len() < MIN_PASSWORD_LEN {
        return Err(TransferError::PasswordTooShort);
    }
    let front = write_header(cost, salt, nonce);
    let key = match argon2id(
        password,
        salt.as_slice(),
        cost.memory_kib,
        cost.passes,
        cost.lanes,
    ) {
        Some(key) => key,
        None => {
            return Err(TransferError::KeyDerivation);
        },
    };
    match seal_with(&key, nonce.as_slice(), front.as_slice(), contents) {
        None => Err(TransferError::TooLong),
        Some(cipher) => {
            let ghost f = front@;
            let mut file = front;
            file.extend_from_slice(cipher.as_slice());
            proof {
                assert(file@ =~= f + cipher@);
                lemma_header_reads_back(*cost, salt@, nonce@, cipher@);
                assert(file@.take(HEADER_LEN as int) =~= f);
                assert(file@.skip(HEADER_LEN as int) =~= cipher@);
            }
            Ok(file)
        },
    }
}

/// Opens the contents of a file.
pub fn open_contents(bytes: &[u8], password: &str) -> (contents: Result<Vec<u8>, TransferError>)
    ensures
        match contents {
            Ok(contents) => contents_behind(bytes@, password@) == Ok::<Seq<u8>, TransferError>(
                contents@,
            ),
            Err(e) => contents_behind(bytes@, password@) == Err::<Seq<u8>, TransferError>(e),
        },
{
    if bytes.len() < HEADER_LEN || !has_magic(bytes) {
        return Err(TransferError::NotAnExport);
    }
    if bytes[16] != VERSION {
        return Err(TransferError::UnsupportedVersion);
    }
    let memory_kib: u32 = u32_from_le_bytes(slice_subrange(bytes, 17, 21));
    let passes: u32 = u32_from_le_bytes(slice_subrange(bytes, 21, 25));
    let lanes: u32 = u32_from_le_bytes(slice_subrange(bytes, 25, 29));
    if memory_kib > 1_048_576 || passes == 0 || passes > 64 || lanes == 0 || lanes > 16 {
        return Err(TransferError::NotAnExport);
    }
    let salt = slice_subrange(bytes, 29, 45);
    let nonce = slice_subrange(bytes, 45, 69);
    let (front, cipher) = bytes.split_at(HEADER_LEN);
    proof {
        assert(front@ =~= bytes@.take(HEADER_LEN as int));
        assert(cipher@ =~= bytes@.skip(HEADER_LEN as int));
    }
    let key = match argon2id(password, salt, memory_kib, passes, lanes) {
        Some(key) => key,
        None => {
            return Err(TransferError::KeyDerivation);
        },
    };
    match open_with(&key, nonce, front, cipher) {
        Some(plain) => Ok(plain),
        None => Err(TransferError::WrongPassword),
    }
}

/// Packs and encrypts conversations under a password.
pub fn export(conversations: &Export, password: &str) -> (file: Result<Vec<u8>, TransferError>)
    ensures
        match export_refusal(encode_utf8(export_json(conversations@)), password@) {
            Some(e) => file == Err::<Vec<u8>, TransferError>(e),
            None => {
                &&& file is Ok
                &&& exists|salt: Seq<u8>, nonce: Seq<u8>|
                    salt.len() == SALT_LEN && nonce.len() == NONCE_LEN && file->Ok_0@
                        == #[trigger] export_file(
                        encode_utf8(export_json(conversations@)),
                        password@,
                        salt,
                        nonce,
                    )
                &&& file->Ok_0@.len() == HEADER_LEN + encode_utf8(
                    export_json(conversations@),
                ).len() + 16
                &&& imported(file->Ok_0@, password@) == Ok::<ExportView, TransferError>(
                    conversations@,
                )
            },
        },
{
    let salt = os_random_bytes(SALT_LEN);
    let nonce = os_random_bytes(NONCE_LEN);
    let text = write_export(conversations);
    proof {
        encode_utf8_valid_utf8(text@);
        encode_utf8_decode_utf8(text@);
        assert(salt@.len() == SALT_LEN && nonce@.len() == NONCE_LEN);
    }
    let file = export_at(text.as_str().as_bytes(), password, &salt, &nonce, &usual_cost());
    assert(file is Ok ==> file->Ok_0@ == export_file(
        encode_utf8(export_json(conversations@)),
        password@,
        salt@,
        nonce@,
    ));
    file
}

/// Opens a file that was exported.
pub fn import(bytes: &[u8], password: &str) -> (conversations: Result<Export, TransferError>)
    ensures
        match conversations {
            Ok(found) => imported(bytes@, password@) == Ok::<ExportView, TransferError>(found@),
            Err(e) => imported(bytes@, password@) == Err::<ExportView, TransferError>(e),
        },
{
    let plain = match open_contents(bytes, password) {
        Ok(plain) => plain,
        Err(e) => {
            return Err(e);
        },
    };
    match strict_text(plain.as_slice()) {
        Some(text) => match read_export(&text) {
            Some(found) => Ok(found),
            None => Err(TransferError::WrongPassword),
        },
        None => Err(TransferError::WrongPassword),
    }
}

/// The header of a file reads back as it was written: how costly the key was to
/// derive, the salt and the nonce.
pub proof fn a_header_reads_back(cost: Cost, salt: Seq<u8>, nonce: Seq<u8>, rest: Seq<u8>)
    requires
        salt.len() == 16,
        nonce.len() == 24,
        is_affordable(cost),
    ensures
        ({
            let file = header(cost.memory_kib, cost.passes, cost.lanes, salt, nonce) + rest;
            &&& header_in(file) is Ok
            &&& header_in(file)->Ok_0.memory_kib == cost.memory_kib
            &&& header_in(file)->Ok_0.passes == cost.passes
            &&& header_in(file)->Ok_0.lanes == cost.lanes
            &&& header_in(file)->Ok_0.salt == salt
            &&& header_in(file)->Ok_0.nonce == nonce
        }),
{
    lemma_header_reads_back(cost, salt, nonce, rest);
}

/// An export needs a password of at least 10 characters, and a derivation costs 64
/// MiB and 8 passes.
pub proof fn what_an_export_needs(contents: Seq<u8>, password: Seq<char>)
    requires
        encode_utf8(password).len() <= 0xFFFF_FFFF,
        contents.len() <= 274_877_906_816,
    ensures
        export_refusal(contents, password) is None <==> password.len() >= 10,
        password.len() < 10 ==> export_refusal(contents, password) == Some(
            TransferError::PasswordTooShort,
        ),
        spec_usual_cost().memory_kib == 65_536,
        spec_usual_cost().passes == 8,
        spec_usual_cost().lanes == 1,
{
}

/// A file that is too short, or does not begin like an export, is none; one of
/// another version is told apart; and one that would cost too much to open is not
/// tried.
pub proof fn what_is_no_export(bytes: Seq<u8>)
    ensures
        bytes.len() < 69 ==> header_in(bytes) == Err::<Header, TransferError>(
            TransferError::NotAnExport,
        ),
        bytes.len() >= 69 && bytes.take(16) != magic() ==> header_in(bytes) == Err::<
            Header,
            TransferError,
        >(TransferError::NotAnExport),
        bytes.len() >= 69 && bytes.take(16) == magic() && bytes[16] != 1 ==> header_in(bytes)
            == Err::<Header, TransferError>(TransferError::UnsupportedVersion),
        header_in(bytes) is Ok ==> header_in(bytes)->Ok_0.memory_kib <= 1_048_576 && 1 <= header_in(
            bytes,
        )->Ok_0.passes <= 64 && 1 <= header_in(bytes)->Ok_0.lanes <= 16,
{
}

/// A key that cannot be derived at a cost is refused for that, once the password is
/// long enough.
pub proof fn a_cost_has_to_make_sense(contents: Seq<u8>, password: Seq<char>, cost: Cost)
    requires
        password.len() >= 10,
    ensures
        cost.memory_kib < 8 || cost.passes == 0 || cost.lanes == 0 || cost.memory_kib < cost.lanes
            * 8 ==> refusal_at(contents, password, cost) == Some(TransferError::KeyDerivation),
        refusal_at(contents, password, cost) is None ==> contents.len() <= 274_877_906_816,
{
}

} // verus!
