//! What travels between devices: envelopes, contents and published keys. The
//! encryption itself happens outside; everything the server sees is opaque.
//!
//! Wire conventions: keys travel base64-encoded inside small JSON documents, and
//! a message envelope is `{"t": "prekey"|"signal", "c": <base64 ciphertext>}`.
use sha2::{Digest, Sha256};
#[allow(unused_imports)]
use vstd::utf8::{decode_utf8, encode_utf8, encode_utf8_decode_utf8, encode_utf8_valid_utf8, valid_utf8};
use vstd::prelude::*;

#[allow(unused_imports)]
use crate::codec::{b64_decoded, b64_encoded, utf8_lossy};
use crate::codec::{b64_decode, b64_encode, lossy_text, strict_text};
#[allow(unused_imports)]
use crate::db::DbView;
use crate::db::{KeyStore, LocalDb};
#[allow(unused_imports)]
use crate::db::records::{by_number, is_highest};
#[allow(unused_imports)]
use crate::json::{
    int_field, json_read, members_nested, nested, record_in, text_field, written, JsonView,
};
use crate::json::{read_record, write_value, Fields, Json};
use crate::text::same_text;
#[allow(unused_imports)]
use crate::text::texts;

verus! {

/// The SHA-256 digest of some bytes.
pub uninterp spec fn sha256_digest(bytes: Seq<u8>) -> Seq<u8>;

/// `Sha256::digest` (crate `sha2`): the digest, 32 bytes.
#[verifier::external_body]
fn sha256(bytes: &[u8]) -> (digest: Vec<u8>)
    ensures
        digest@ == sha256_digest(bytes@),
        digest@.len() == 32,
{
    Sha256::digest(bytes).to_vec()
}

/// A hexadecimal digit, in capitals.
pub open spec fn hex_digit(n: int) -> char {
    if n < 10 {
        ((48 + n) as u8) as char
    } else {
        ((55 + n) as u8) as char
    }
}

/// The first `n` bytes in hexadecimal, with a space between every two.
pub open spec fn hex_pairs(bytes: Seq<u8>, n: nat) -> Seq<char>
    decreases n,
{
    if n == 0 {
        Seq::empty()
    } else {
        let front = hex_pairs(bytes, (n - 1) as nat);
        let at = (n - 1) as int;
        let gap = if at > 0 && at % 2 == 0 {
            front.push(' ')
        } else {
            front
        };
        gap.push(hex_digit(bytes[at] as int / 16)).push(hex_digit(bytes[at] as int % 16))
    }
}

/// A short, readable fingerprint of an identity key.
///
/// Shown when a contact's key changes, so the two of you can read it to each
/// other over some channel this app does not control and settle whether the
/// change was really them.
pub fn fingerprint(identity_b64: &str) -> (text: String)
    ensures
        text@ == hex_pairs(sha256_digest(encode_utf8(identity_b64@)), 10),
{
    let digest = sha256(identity_b64.as_bytes());
    let mut text = String::new();
    let mut i: usize = 0;
    while i < 10
        invariant
            i <= 10,
            digest@.len() == 32,
            text@ == hex_pairs(digest@, i as nat),
        decreases 10 - i,
    {
        if i > 0 && i % 2 == 0 {
            text.push(' ');
        }
        let high: u8 = digest[i] / 16;
        let low: u8 = digest[i] % 16;
        text.push(if high < 10 { (48u8 + high) as char } else { (55u8 + high) as char });
        text.push(if low < 10 { (48u8 + low) as char } else { (55u8 + low) as char });
        i = i + 1;
    }
    text
}

/// What travels inside the encrypted envelope, as a record.
pub open spec fn content_record(kind: Seq<char>, content: Seq<char>) -> Map<Seq<char>, Seq<char>> {
    Map::empty().insert("content"@, written(JsonView::Text(content))).insert(
        "kind"@,
        written(JsonView::Text(kind)),
    )
}

/// What travels inside the encrypted envelope.
pub open spec fn content_json(kind: Seq<char>, content: Seq<char>) -> Seq<char> {
    written(JsonView::Record(content_record(kind, content)))
}

/// The kind and the content behind a payload. Plain payloads from older clients
/// are treated as text.
pub open spec fn content_in(plain: Seq<u8>) -> (Seq<char>, Seq<char>) {
    let fields = if valid_utf8(plain) {
        record_in(decode_utf8(plain))
    } else {
        None
    };
    if fields is Some && text_field(fields->0, "kind"@) is Some && text_field(
        fields->0,
        "content"@,
    ) is Some {
        (text_field(fields->0, "kind"@)->0, text_field(fields->0, "content"@)->0)
    } else {
        ("text"@, utf8_lossy(plain))
    }
}

/// Packs what travels inside the encrypted envelope.
pub fn encode_content(kind: &str, content: &str) -> (payload: Vec<u8>)
    ensures
        payload@ == encode_utf8(content_json(kind@, content@)),
        content_in(payload@) == (kind@, content@),
{
    let mut fields = Fields::new();
    proof {
        reveal_strlit("content");
        reveal_strlit("kind");
        assert("content"@.len() == 7 && "kind"@.len() == 4);
    }
    fields.put_text("content", content, Ghost(0));
    fields.put_text("kind", kind, Ghost(0));
    assert(fields@ == content_record(kind@, content@));
    let text = fields.finish(Ghost(0));
    proof {
        encode_utf8_valid_utf8(text@);
        encode_utf8_decode_utf8(text@);
    }
    let mut payload: Vec<u8> = Vec::new();
    payload.extend_from_slice(text.as_str().as_bytes());
    assert(payload@ =~= encode_utf8(text@));
    payload
}

/// Unpacks what travels inside the encrypted envelope.
pub fn decode_content(plain: &Vec<u8>) -> (content: (String, String))
    ensures
        (content.0@, content.1@) == content_in(plain@),
{
    if let Some(text) = strict_text(plain.as_slice()) {
        if let Some(fields) = read_record(&text) {
            match (fields.text("kind"), fields.text("content")) {
                (Some(kind), Some(content)) => {
                    return (kind, content);
                },
                _ => {},
            }
        }
    }
    ("text".to_string(), lossy_text(plain.as_slice()))
}

/// How a message was encrypted: with a handshake, or in a running session.
#[derive(Clone, Copy, Debug, PartialEq, Eq, Structural)]
pub enum EnvelopeKind {
    PreKey,
    Signal,
}

/// Why an envelope cannot be read.
#[derive(Clone, Copy, Debug, PartialEq, Eq, Structural)]
pub enum EnvelopeFault {
    /// It is not an envelope.
    BadEnvelope,
    /// The ciphertext is not base64.
    BadBase64,
    /// It is of no known kind.
    UnknownKind,
}

/// How a kind of envelope is written.
pub open spec fn envelope_name(kind: EnvelopeKind) -> Seq<char> {
    match kind {
        EnvelopeKind::PreKey => "prekey"@,
        EnvelopeKind::Signal => "signal"@,
    }
}

/// An envelope as a record.
pub open spec fn envelope_record(kind: EnvelopeKind, cipher: Seq<u8>) -> Map<Seq<char>, Seq<char>> {
    Map::empty().insert("c"@, written(JsonView::Text(b64_encoded(cipher)))).insert(
        "t"@,
        written(JsonView::Text(envelope_name(kind))),
    )
}

/// An envelope.
pub open spec fn envelope_json(kind: EnvelopeKind, cipher: Seq<u8>) -> Seq<char> {
    written(JsonView::Record(envelope_record(kind, cipher)))
}

/// What an envelope holds.
pub open spec fn envelope_in(text: Seq<char>) -> Result<(EnvelopeKind, Seq<u8>), EnvelopeFault> {
    match record_in(text) {
        None => Err(EnvelopeFault::BadEnvelope),
        Some(f) => if text_field(f, "t"@) is None || text_field(f, "c"@) is None {
            Err(EnvelopeFault::BadEnvelope)
        } else {
            match b64_decoded(text_field(f, "c"@)->0) {
                None => Err(EnvelopeFault::BadBase64),
                Some(cipher) => if text_field(f, "t"@)->0 == "prekey"@ {
                    Ok((EnvelopeKind::PreKey, cipher))
                } else if text_field(f, "t"@)->0 == "signal"@ {
                    Ok((EnvelopeKind::Signal, cipher))
                } else {
                    Err(EnvelopeFault::UnknownKind)
                },
            }
        },
    }
}

/// Puts a ciphertext in its envelope.
pub fn write_envelope(kind: EnvelopeKind, cipher: &Vec<u8>) -> (text: String)
    ensures
        text@ == envelope_json(kind, cipher@),
        envelope_in(text@) == Ok::<(EnvelopeKind, Seq<u8>), EnvelopeFault>((kind, cipher@)),
{
    proof {
        reveal_strlit("c");
        reveal_strlit("t");
        assert("c"@[0] == 'c' && "t"@[0] == 't');
        reveal_strlit("prekey");
        reveal_strlit("signal");
        assert("prekey"@[0] == 'p' && "signal"@[0] == 's');
    }
    let name = match kind {
        EnvelopeKind::PreKey => "prekey",
        EnvelopeKind::Signal => "signal",
    };
    let encoded = b64_encode(cipher.as_slice());
    let mut fields = Fields::new();
    fields.put_text("c", &encoded, Ghost(0));
    fields.put_text("t", name, Ghost(0));
    assert(fields@ == envelope_record(kind, cipher@));
    fields.finish(Ghost(0))
}

/// Takes a ciphertext out of its envelope.
pub fn read_envelope(text: &str) -> (envelope: Result<(EnvelopeKind, Vec<u8>), EnvelopeFault>)
    ensures
        match envelope {
            Ok(found) => envelope_in(text@) == Ok::<(EnvelopeKind, Seq<u8>), EnvelopeFault>(
                (found.0, found.1@),
            ),
            Err(fault) => envelope_in(text@) == Err::<(EnvelopeKind, Seq<u8>), EnvelopeFault>(
                fault,
            ),
        },
{
    let fields = match read_record(text) {
        Some(fields) => fields,
        None => {
            return Err(EnvelopeFault::BadEnvelope);
        },
    };
    match (fields.text("t"), fields.text("c")) {
        (Some(kind), Some(encoded)) => match b64_decode(&encoded) {
            None => Err(EnvelopeFault::BadBase64),
            Some(cipher) => if same_text(&kind, "prekey") {
                Ok((EnvelopeKind::PreKey, cipher))
            } else if same_text(&kind, "signal") {
                Ok((EnvelopeKind::Signal, cipher))
            } else {
                Err(EnvelopeFault::UnknownKind)
            },
        },
        _ => Err(EnvelopeFault::BadEnvelope),
    }
}

/// The parts of a bundle that can be missing or unreadable.
#[derive(Clone, Copy, Debug, PartialEq, Eq, Structural)]
pub enum BundlePart {
    RegistrationId,
    IdentityKey,
    OneTimeId,
    OneTimePublic,
    SignedId,
    SignedPublic,
    SignedSignature,
    KyberId,
    KyberPublic,
    KyberSignature,
}

/// Why a bundle cannot be used.
#[derive(Clone, Copy, Debug, PartialEq, Eq, Structural)]
pub enum BundleFault {
    /// The bundle, or a prekey in it, is not JSON.
    NotJson,
    /// A part is missing.
    Missing(BundlePart),
    /// A part is not base64.
    BadBase64(BundlePart),
}

/// A published key: its number, and the key itself.
pub struct PublicKey {
    pub id: u32,
    pub public: Vec<u8>,
}

/// A published key as a plain value.
pub struct PublicKeyView {
    pub id: u32,
    pub public: Seq<u8>,
}

impl View for PublicKey {
    type V = PublicKeyView;

    open spec fn view(&self) -> PublicKeyView {
        PublicKeyView { id: self.id, public: self.public@ }
    }
}

/// A published key that is signed.
pub struct SignedKey {
    pub id: u32,
    pub public: Vec<u8>,
    pub signature: Vec<u8>,
}

/// A signed key as a plain value.
pub struct SignedKeyView {
    pub id: u32,
    pub public: Seq<u8>,
    pub signature: Seq<u8>,
}

impl View for SignedKey {
    type V = SignedKeyView;

    open spec fn view(&self) -> SignedKeyView {
        SignedKeyView { id: self.id, public: self.public@, signature: self.signature@ }
    }
}

/// What a session is established from.
pub struct BundleParts {
    pub registration_id: u32,
    pub identity_key: Vec<u8>,
    /// The one-time key is optional; the signed key always exists.
    pub one_time: Option<PublicKey>,
    pub signed: SignedKey,
    pub kyber: SignedKey,
}

/// What a session is established from, as a plain value.
pub struct BundleView {
    pub registration_id: u32,
    pub identity_key: Seq<u8>,
    pub one_time: Option<PublicKeyView>,
    pub signed: SignedKeyView,
    pub kyber: SignedKeyView,
}

impl View for BundleParts {
    type V = BundleView;

    open spec fn view(&self) -> BundleView {
        BundleView {
            registration_id: self.registration_id,
            identity_key: self.identity_key@,
            one_time: match self.one_time {
                Some(key) => Some(key@),
                None => None,
            },
            signed: self.signed@,
            kyber: self.kyber@,
        }
    }
}

/// The fields of the record that a text holds; none where it holds anything else.
pub open spec fn fields_or_none(text: Seq<char>) -> Map<Seq<char>, Seq<char>> {
    match record_in(text) {
        Some(fields) => fields,
        None => Map::empty(),
    }
}

/// The fields of the record in a field; none where it holds anything else.
pub open spec fn inner_fields(f: Map<Seq<char>, Seq<char>>, name: Seq<char>) -> Map<
    Seq<char>,
    Seq<char>,
> {
    if f.contains_key(name) {
        fields_or_none(f[name])
    } else {
        Map::empty()
    }
}

/// The number in a field, of which the low 32 bits count.
pub open spec fn number_part(
    f: Map<Seq<char>, Seq<char>>,
    name: Seq<char>,
    part: BundlePart,
) -> Result<u32, BundleFault> {
    match int_field(f, name) {
        Some(n) if 0 <= n <= u64::MAX => Ok((n % 0x1_0000_0000) as u32),
        _ => Err(BundleFault::Missing(part)),
    }
}

/// The bytes in a field.
pub open spec fn bytes_part(
    f: Map<Seq<char>, Seq<char>>,
    name: Seq<char>,
    part: BundlePart,
) -> Result<Seq<u8>, BundleFault> {
    match text_field(f, name) {
        None => Err(BundleFault::Missing(part)),
        Some(text) => match b64_decoded(text) {
            Some(bytes) => Ok(bytes),
            None => Err(BundleFault::BadBase64(part)),
        },
    }
}

/// The one-time key of a bundle, where it has one.
pub open spec fn one_time_part(f: Map<Seq<char>, Seq<char>>) -> Result<
    Option<PublicKeyView>,
    BundleFault,
> {
    match text_field(f, "one_time_prekey"@) {
        None => Ok(None),
        Some(data) => if json_read(data) is None {
            Err(BundleFault::NotJson)
        } else {
            let v = fields_or_none(data);
            match (
                number_part(v, "id"@, BundlePart::OneTimeId),
                bytes_part(v, "public"@, BundlePart::OneTimePublic),
            ) {
                (Err(e), _) => Err(e),
                (_, Err(e)) => Err(e),
                (Ok(id), Ok(public)) => Ok(Some(PublicKeyView { id, public })),
            }
        },
    }
}

/// The fields of the kyber key of a bundle: a one-time key where there is one, and
/// the last-resort key otherwise.
pub open spec fn kyber_fields(f: Map<Seq<char>, Seq<char>>) -> Result<
    Map<Seq<char>, Seq<char>>,
    BundleFault,
> {
    match text_field(f, "kyber_prekey"@) {
        Some(data) => if json_read(data) is None {
            Err(BundleFault::NotJson)
        } else {
            Ok(fields_or_none(data))
        },
        None => Ok(inner_fields(inner_fields(f, "bundle_static"@), "kyber_last_resort"@)),
    }
}

/// A signed key in some fields.
pub open spec fn signed_part(
    f: Map<Seq<char>, Seq<char>>,
    id: BundlePart,
    public: BundlePart,
    signature: BundlePart,
) -> Result<SignedKeyView, BundleFault> {
    match (
        number_part(f, "id"@, id),
        bytes_part(f, "public"@, public),
        bytes_part(f, "signature"@, signature),
    ) {
        (Err(e), _, _) => Err(e),
        (_, Err(e), _) => Err(e),
        (_, _, Err(e)) => Err(e),
        (Ok(id), Ok(public), Ok(signature)) => Ok(SignedKeyView { id, public, signature }),
    }
}

/// The bundle that a text holds.
pub open spec fn bundle_in(text: Seq<char>) -> Result<BundleView, BundleFault> {
    if json_read(text) is None {
        Err(BundleFault::NotJson)
    } else {
        let f = fields_or_none(text);
        let spk = inner_fields(inner_fields(f, "bundle_static"@), "signed_prekey"@);
        match (
            number_part(f, "registration_id"@, BundlePart::RegistrationId),
            bytes_part(f, "identity_key"@, BundlePart::IdentityKey),
            one_time_part(f),
            kyber_fields(f),
            signed_part(
                spk,
                BundlePart::SignedId,
                BundlePart::SignedPublic,
                BundlePart::SignedSignature,
            ),
        ) {
            (Err(e), _, _, _, _) => Err(e),
            (_, Err(e), _, _, _) => Err(e),
            (_, _, Err(e), _, _) => Err(e),
            (_, _, _, Err(e), _) => Err(e),
            (_, _, _, _, Err(e)) => Err(e),
            (Ok(registration_id), Ok(identity_key), Ok(one_time), Ok(kf), Ok(signed)) => match signed_part(
                kf,
                BundlePart::KyberId,
                BundlePart::KyberPublic,
                BundlePart::KyberSignature,
            ) {
                Err(e) => Err(e),
                Ok(kyber) => Ok(
                    BundleView { registration_id, identity_key, one_time, signed, kyber },
                ),
            },
        }
    }
}

/// Whether a text is JSON, and the fields of the record that it holds.
fn read_fields(text: &str) -> (fields: Option<Fields>)
    ensures
        match fields {
            Some(fields) => json_read(text@) is Some && fields@ == fields_or_none(text@),
            None => json_read(text@) is None,
        },
{
    match crate::json::read_json(text) {
        None => None,
        Some(crate::json::Json::Record(list)) => Some(Fields { list }),
        Some(_) => Some(Fields::new()),
    }
}

/// The fields of the record in a field.
fn read_inner(fields: &Fields, name: &str) -> (inner: Fields)
    ensures
        inner@ == inner_fields(fields@, name@),
{
    match fields.raw(name) {
        Some(raw) => match read_record(raw) {
            Some(inner) => inner,
            None => Fields::new(),
        },
        None => Fields::new(),
    }
}

/// The number in a field.
fn read_number(fields: &Fields, name: &str, part: BundlePart) -> (n: Result<u32, BundleFault>)
    ensures
        n == number_part(fields@, name@, part),
{
    match fields.number(name) {
        Some(n) => if n >= 0 && n <= 0xffff_ffff_ffff_ffff {
            Ok((n % 0x1_0000_0000) as u32)
        } else {
            Err(BundleFault::Missing(part))
        },
        None => Err(BundleFault::Missing(part)),
    }
}

/// The bytes in a field.
fn read_bytes(fields: &Fields, name: &str, part: BundlePart) -> (bytes: Result<
    Vec<u8>,
    BundleFault,
>)
    ensures
        match bytes {
            Ok(bytes) => bytes_part(fields@, name@, part) == Ok::<Seq<u8>, BundleFault>(bytes@),
            Err(e) => bytes_part(fields@, name@, part) == Err::<Seq<u8>, BundleFault>(e),
        },
{
    match fields.text(name) {
        None => Err(BundleFault::Missing(part)),
        Some(text) => match b64_decode(&text) {
            Some(bytes) => Ok(bytes),
            None => Err(BundleFault::BadBase64(part)),
        },
    }
}

/// A signed key in some fields.
fn read_signed(fields: &Fields, id: BundlePart, public: BundlePart, signature: BundlePart) -> (key:
    Result<SignedKey, BundleFault>)
    ensures
        match key {
            Ok(key) => signed_part(fields@, id, public, signature) == Ok::<
                SignedKeyView,
                BundleFault,
            >(key@),
            Err(e) => signed_part(fields@, id, public, signature) == Err::<
                SignedKeyView,
                BundleFault,
            >(e),
        },
{
    let id: u32 = match read_number(fields, "id", id) {
        Ok(id) => id,
        Err(e) => {
            return Err(e);
        },
    };
    let public = match read_bytes(fields, "public", public) {
        Ok(public) => public,
        Err(e) => {
            return Err(e);
        },
    };
    match read_bytes(fields, "signature", signature) {
        Ok(signature) => Ok(SignedKey { id, public, signature }),
        Err(e) => Err(e),
    }
}

/// The one-time key of a bundle.
fn read_one_time(fields: &Fields) -> (key: Result<Option<PublicKey>, BundleFault>)
    ensures
        match key {
            Ok(Some(key)) => one_time_part(fields@) == Ok::<Option<PublicKeyView>, BundleFault>(
                Some(key@),
            ),
            Ok(None) => one_time_part(fields@) == Ok::<Option<PublicKeyView>, BundleFault>(None),
            Err(e) => one_time_part(fields@) == Err::<Option<PublicKeyView>, BundleFault>(e),
        },
{
    match fields.text("one_time_prekey") {
        None => Ok(None),
        Some(data) => {
            let v = match read_fields(&data) {
                Some(v) => v,
                None => {
                    return Err(BundleFault::NotJson);
                },
            };
            let id: u32 = match read_number(&v, "id", BundlePart::OneTimeId) {
                Ok(id) => id,
                Err(e) => {
                    return Err(e);
                },
            };
            match read_bytes(&v, "public", BundlePart::OneTimePublic) {
                Ok(public) => Ok(Some(PublicKey { id, public })),
                Err(e) => Err(e),
            }
        },
    }
}

/// Reads the bundle that a contact published.
pub fn read_bundle(text: &str) -> (bundle: Result<BundleParts, BundleFault>)
    ensures
        match bundle {
            Ok(bundle) => bundle_in(text@) == Ok::<BundleView, BundleFault>(bundle@),
            Err(e) => bundle_in(text@) == Err::<BundleView, BundleFault>(e),
        },
{
    let fields = match read_fields(text) {
        Some(fields) => fields,
        None => {
            return Err(BundleFault::NotJson);
        },
    };
    let registration_id: u32 = match read_number(
        &fields,
        "registration_id",
        BundlePart::RegistrationId,
    ) {
        Ok(n) => n,
        Err(e) => {
            return Err(e);
        },
    };
    let identity_key = match read_bytes(&fields, "identity_key", BundlePart::IdentityKey) {
        Ok(bytes) => bytes,
        Err(e) => {
            return Err(e);
        },
    };
    let one_time = match read_one_time(&fields) {
        Ok(key) => key,
        Err(e) => {
            return Err(e);
        },
    };
    let stat = read_inner(&fields, "bundle_static");
    // Prefer a one-time kyber prekey; fall back to the last-resort one.
    let kf = match fields.text("kyber_prekey") {
        Some(data) => match read_fields(&data) {
            Some(kf) => kf,
            None => {
                return Err(BundleFault::NotJson);
            },
        },
        None => read_inner(&stat, "kyber_last_resort"),
    };
    let spk = read_inner(&stat, "signed_prekey");
    let signed = match read_signed(
        &spk,
        BundlePart::SignedId,
        BundlePart::SignedPublic,
        BundlePart::SignedSignature,
    ) {
        Ok(key) => key,
        Err(e) => {
            return Err(e);
        },
    };
    match read_signed(
        &kf,
        BundlePart::KyberId,
        BundlePart::KyberPublic,
        BundlePart::KyberSignature,
    ) {
        Ok(kyber) => Ok(
            BundleParts { registration_id, identity_key, one_time, signed, kyber },
        ),
        Err(e) => Err(e),
    }
}

/// A key as a record.
pub open spec fn key_record(key: PublicKeyView) -> Map<Seq<char>, Seq<char>> {
    Map::empty().insert("id"@, written(JsonView::Int(key.id as int))).insert(
        "public"@,
        written(JsonView::Text(b64_encoded(key.public))),
    )
}

/// A signed key as a record.
pub open spec fn signed_record(key: SignedKeyView) -> Map<Seq<char>, Seq<char>> {
    key_record(PublicKeyView { id: key.id, public: key.public }).insert(
        "signature"@,
        written(JsonView::Text(b64_encoded(key.signature))),
    )
}

proof fn lemma_key_names_differ()
    ensures
        "id"@ != "public"@,
        "id"@ != "signature"@,
        "public"@ != "signature"@,
{
    reveal_strlit("id");
    reveal_strlit("public");
    reveal_strlit("signature");
    assert("id"@.len() == 2 && "public"@.len() == 6 && "signature"@.len() == 9);
}

/// Writes a one-time key down as it is published.
pub fn write_key(key: &PublicKey) -> (data: String)
    ensures
        data@ == written(JsonView::Record(key_record(key@))),
        json_read(data@) is Some,
        fields_or_none(data@) == key_record(key@),
        int_field(fields_or_none(data@), "id"@) == Some(key.id as int),
        number_part(fields_or_none(data@), "id"@, BundlePart::OneTimeId) == Ok::<u32, BundleFault>(
            key.id,
        ),
        bytes_part(fields_or_none(data@), "public"@, BundlePart::OneTimePublic) == Ok::<
            Seq<u8>,
            BundleFault,
        >(key.public@),
        nested(data@, 1),
{
    proof {
        lemma_key_names_differ();
    }
    let public = b64_encode(key.public.as_slice());
    let mut fields = Fields::new();
    proof {
        reveal_strlit("id");
        reveal_strlit("public");
    }
    fields.put_int("id", key.id as i64, Ghost(0));
    fields.put_text("public", &public, Ghost(0));
    assert(fields@ == key_record(key@));
    fields.finish(Ghost(0))
}

/// Writes a signed key down as it is published.
pub fn write_signed_key(key: &SignedKey) -> (data: String)
    ensures
        data@ == written(JsonView::Record(signed_record(key@))),
        json_read(data@) is Some,
        fields_or_none(data@) == signed_record(key@),
        int_field(fields_or_none(data@), "id"@) == Some(key.id as int),
        forall|id: BundlePart, public: BundlePart, signature: BundlePart| #[trigger]
            signed_part(fields_or_none(data@), id, public, signature) == Ok::<
                SignedKeyView,
                BundleFault,
            >(key@),
        nested(data@, 1),
{
    proof {
        lemma_key_names_differ();
    }
    let public = b64_encode(key.public.as_slice());
    let signature = b64_encode(key.signature.as_slice());
    let mut fields = Fields::new();
    proof {
        reveal_strlit("id");
        reveal_strlit("public");
        reveal_strlit("signature");
    }
    fields.put_int("id", key.id as i64, Ghost(0));
    fields.put_text("public", &public, Ghost(0));
    fields.put_text("signature", &signature, Ghost(0));
    assert(fields@ == signed_record(key@));
    fields.finish(Ghost(0))
}

/// The part of a bundle that stays until the next upload, as a record.
pub open spec fn static_record(signed: SignedKeyView, last_resort: SignedKeyView) -> Map<
    Seq<char>,
    Seq<char>,
> {
    Map::empty().insert("device_id"@, written(JsonView::Int(1))).insert(
        "kyber_last_resort"@,
        written(JsonView::Record(signed_record(last_resort))),
    ).insert("signed_prekey"@, written(JsonView::Record(signed_record(signed))))
}

/// Writes down the part of a bundle that stays until the next upload: a contact
/// reads the same keys from it.
pub fn write_static_bundle(signed: &SignedKey, last_resort: &SignedKey) -> (text: String)
    ensures
        text@ == written(JsonView::Record(static_record(signed@, last_resort@))),
        fields_or_none(text@) == static_record(signed@, last_resort@),
        signed_part(
            inner_fields(fields_or_none(text@), "signed_prekey"@),
            BundlePart::SignedId,
            BundlePart::SignedPublic,
            BundlePart::SignedSignature,
        ) == Ok::<SignedKeyView, BundleFault>(signed@),
        signed_part(
            inner_fields(fields_or_none(text@), "kyber_last_resort"@),
            BundlePart::KyberId,
            BundlePart::KyberPublic,
            BundlePart::KyberSignature,
        ) == Ok::<SignedKeyView, BundleFault>(last_resort@),
        forall|bundle: Seq<char>|
            #![trigger bundle_in(bundle)]
            fields_or_none(bundle).contains_key("bundle_static"@) && fields_or_none(
                bundle,
            )["bundle_static"@] == text@ && bundle_in(bundle) is Ok ==> {
                let read = bundle_in(bundle)->Ok_0;
                &&& read.signed.id == signed.id
                &&& read.signed.public == signed.public@
                &&& read.signed.signature == signed.signature@
                &&& text_field(fields_or_none(bundle), "kyber_prekey"@) is None ==> {
                    &&& read.kyber.id == last_resort.id
                    &&& read.kyber.public == last_resort.public@
                    &&& read.kyber.signature == last_resort.signature@
                }
            },
        nested(text@, 2),
{
    proof {
        reveal_strlit("device_id");
        reveal_strlit("kyber_last_resort");
        reveal_strlit("signed_prekey");
        assert("device_id"@.len() == 9 && "kyber_last_resort"@.len() == 17 && "signed_prekey"@.len()
            == 13);
    }
    let spk = write_signed_key(signed);
    let kyber = write_signed_key(last_resort);
    let mut fields = Fields::new();
    fields.put_int("device_id", 1, Ghost(1));
    fields.put_raw("kyber_last_resort", kyber);
    fields.put_raw("signed_prekey", spk);
    assert(fields@ == static_record(signed@, last_resort@));
    fields.finish(Ghost(1))
}

/// A one-time key in an upload, as a record: its kind, and the key as it is
/// published.
pub open spec fn upload_item(kind: Seq<char>, data: Seq<char>) -> Seq<char> {
    written(
        JsonView::Record(
            Map::empty().insert("data"@, written(JsonView::Text(data))).insert(
                "kind"@,
                written(JsonView::Text(kind)),
            ),
        ),
    )
}

/// The one-time keys in an upload: the two kinds take turns.
pub open spec fn upload_items(one_time: Seq<PublicKeyView>, kyber: Seq<SignedKeyView>) -> Seq<
    Seq<char>,
>
    decreases one_time.len(),
{
    if one_time.len() == 0 {
        Seq::empty()
    } else {
        let i = one_time.len() - 1;
        upload_items(one_time.drop_last(), kyber).push(
            upload_item("ec"@, written(JsonView::Record(key_record(one_time[i])))),
        ).push(upload_item("kyber"@, written(JsonView::Record(signed_record(kyber[i])))))
    }
}

/// An upload of keys as a record.
pub open spec fn upload_record(
    identity: Seq<char>,
    registration_id: u32,
    signed: SignedKeyView,
    last_resort: SignedKeyView,
    one_time: Seq<PublicKeyView>,
    kyber: Seq<SignedKeyView>,
) -> Map<Seq<char>, Seq<char>> {
    Map::empty().insert(
        "bundle_static"@,
        written(JsonView::Record(static_record(signed, last_resort))),
    ).insert("identity_key"@, written(JsonView::Text(identity))).insert(
        "one_time_prekeys"@,
        written(JsonView::List(upload_items(one_time, kyber))),
    ).insert("registration_id"@, written(JsonView::Int(registration_id as int)))
}

/// Writes down a one-time key of an upload.
fn write_upload_item(kind: &str, data: &str) -> (text: String)
    ensures
        text@ == upload_item(kind@, data@),
        text_field(fields_or_none(text@), "kind"@) == Some(kind@),
        text_field(fields_or_none(text@), "data"@) == Some(data@),
        nested(text@, 1),
{
    let mut fields = Fields::new();
    proof {
        reveal_strlit("data");
        reveal_strlit("kind");
        assert("data"@[0] == 'd' && "kind"@[0] == 'k');
    }
    fields.put_text("data", data, Ghost(0));
    fields.put_text("kind", kind, Ghost(0));
    fields.finish(Ghost(0))
}

/// Public keys as plain values.
pub open spec fn keys_seen(keys: Seq<PublicKey>) -> Seq<PublicKeyView> {
    keys.map_values(|k: PublicKey| k@)
}

/// Signed keys as plain values.
pub open spec fn signed_seen(keys: Seq<SignedKey>) -> Seq<SignedKeyView> {
    keys.map_values(|k: SignedKey| k@)
}

/// Whether an item of an upload is a one-time key of a kind, and the record of the
/// key that is published for it.
pub open spec fn offers(item: Seq<char>, kind: Seq<char>, id: u32, public: Seq<u8>) -> bool {
    let f = fields_or_none(item);
    let key = fields_or_none(text_field(f, "data"@)->0);
    &&& text_field(f, "kind"@) == Some(kind)
    &&& text_field(f, "data"@) is Some
    &&& int_field(key, "id"@) == Some(id as int)
    &&& text_field(key, "public"@) is Some
    &&& b64_decoded(text_field(key, "public"@)->0) == Some(public)
}

/// Whether an item of an upload comes with a signature.
pub open spec fn offers_signature(item: Seq<char>, signature: Seq<u8>) -> bool {
    let key = fields_or_none(text_field(fields_or_none(item), "data"@)->0);
    text_field(key, "signature"@) is Some && b64_decoded(text_field(key, "signature"@)->0) == Some(
        signature,
    )
}

/// Whether the items of an upload are the one-time keys, one of each kind in turn.
pub open spec fn offers_in_turn(
    items: Seq<Seq<char>>,
    one_time: Seq<PublicKey>,
    kyber: Seq<SignedKey>,
    n: int,
) -> bool {
    &&& items.len() == 2 * n
    &&& forall|i: int|
        0 <= i < n ==> {
            &&& offers(#[trigger] items[2 * i], "ec"@, one_time[i].id, one_time[i].public@)
            &&& offers(items[2 * i + 1], "kyber"@, kyber[i].id, kyber[i].public@)
            &&& offers_signature(items[2 * i + 1], kyber[i].signature@)
        }
}

/// Writes down the one-time keys of an upload.
fn write_upload_items(one_time: &Vec<PublicKey>, kyber: &Vec<SignedKey>) -> (text: String)
    requires
        one_time@.len() == kyber@.len(),
    ensures
        text@ == written(JsonView::List(upload_items(keys_seen(one_time@), signed_seen(kyber@)))),
        json_read(text@) matches Some(JsonView::List(items)) && offers_in_turn(
            items,
            one_time@,
            kyber@,
            one_time@.len() as int,
        ),
        nested(text@, 2),
{
    let mut items: Vec<String> = Vec::new();
    let mut i: usize = 0;
    let ghost a = keys_seen(one_time@);
    let ghost b = signed_seen(kyber@);
    assert(texts(items@) =~= upload_items(a.take(0), b));
    while i < one_time.len()
        invariant
            i <= one_time@.len(),
            one_time@.len() == kyber@.len(),
            a == keys_seen(one_time@),
            b == signed_seen(kyber@),
            texts(items@) == upload_items(a.take(i as int), b),
            offers_in_turn(texts(items@), one_time@, kyber@, i as int),
            forall|j: int| 0 <= j < items@.len() ==> nested((#[trigger] items@[j])@, 1),
        decreases one_time@.len() - i,
    {
        let first = write_upload_item("ec", &write_key(&one_time[i]));
        let key = write_signed_key(&kyber[i]);
        let second = write_upload_item("kyber", &key);
        assert(signed_part(
            fields_or_none(key@),
            BundlePart::KyberId,
            BundlePart::KyberPublic,
            BundlePart::KyberSignature,
        ) == Ok::<SignedKeyView, BundleFault>(kyber@[i as int]@));
        assert(offers(first@, "ec"@, one_time@[i as int].id, one_time@[i as int].public@));
        assert(offers(second@, "kyber"@, kyber@[i as int].id, kyber@[i as int].public@));
        assert(offers_signature(second@, kyber@[i as int].signature@));
        let ghost before = items@;
        proof {
            assert(a.take(i + 1).drop_last() =~= a.take(i as int));
            assert(a.take(i + 1)[i as int] == one_time@[i as int]@);
            assert(b[i as int] == kyber@[i as int]@);
        }
        let ghost x = first@;
        let ghost y = second@;
        items.push(first);
        items.push(second);
        assert(texts(items@) =~= texts(before).push(x).push(y));
        proof {
            assert forall|j: int| 0 <= j < i + 1 implies {
                &&& offers(
                    #[trigger] texts(items@)[2 * j],
                    "ec"@,
                    one_time@[j].id,
                    one_time@[j].public@,
                )
                &&& offers(texts(items@)[2 * j + 1], "kyber"@, kyber@[j].id, kyber@[j].public@)
                &&& offers_signature(texts(items@)[2 * j + 1], kyber@[j].signature@)
            } by {
                if j < i {
                    assert(texts(items@)[2 * j] == texts(before)[2 * j]);
                    assert(texts(items@)[2 * j + 1] == texts(before)[2 * j + 1]);
                }
            }
        }
        i = i + 1;
    }
    proof {
        assert(a.take(a.len() as int) =~= a);
    }
    let value = Json::List(items);
    proof {
        assert forall|j: int| 0 <= j < texts(items@).len() implies nested(
            #[trigger] texts(items@)[j],
            1,
        ) by {
            assert(texts(items@)[j] == items@[j]@);
        }
        assert(members_nested(value@, 2));
    }
    write_value(&value, Ghost(2))
}

/// Writes down an upload of keys: the part that stays, a one-time key of each kind
/// in turn, and whose they are.
pub fn upload_body(
    identity: &str,
    registration_id: u32,
    signed: &SignedKey,
    last_resort: &SignedKey,
    one_time: &Vec<PublicKey>,
    kyber: &Vec<SignedKey>,
) -> (text: String)
    requires
        one_time@.len() == kyber@.len(),
    ensures
        text@ == written(
            JsonView::Record(
                upload_record(
                    identity@,
                    registration_id,
                    signed@,
                    last_resort@,
                    keys_seen(one_time@),
                    signed_seen(kyber@),
                ),
            ),
        ),
        fields_or_none(text@) == upload_record(
            identity@,
            registration_id,
            signed@,
            last_resort@,
            keys_seen(one_time@),
            signed_seen(kyber@),
        ),
        text_field(fields_or_none(text@), "identity_key"@) == Some(identity@),
        int_field(fields_or_none(text@), "registration_id"@) == Some(registration_id as int),
        fields_or_none(text@).contains_key("one_time_prekeys"@),
        json_read(fields_or_none(text@)["one_time_prekeys"@]) matches Some(JsonView::List(items))
            && offers_in_turn(items, one_time@, kyber@, one_time@.len() as int),
        signed_part(
            inner_fields(inner_fields(fields_or_none(text@), "bundle_static"@), "signed_prekey"@),
            BundlePart::SignedId,
            BundlePart::SignedPublic,
            BundlePart::SignedSignature,
        ) == Ok::<SignedKeyView, BundleFault>(signed@),
        signed_part(
            inner_fields(
                inner_fields(fields_or_none(text@), "bundle_static"@),
                "kyber_last_resort"@,
            ),
            BundlePart::KyberId,
            BundlePart::KyberPublic,
            BundlePart::KyberSignature,
        ) == Ok::<SignedKeyView, BundleFault>(last_resort@),
{
    let lasting = write_static_bundle(signed, last_resort);
    let list = write_upload_items(one_time, kyber);
    let mut fields = Fields::new();
    proof {
        reveal_strlit("bundle_static");
        reveal_strlit("identity_key");
        reveal_strlit("one_time_prekeys");
        reveal_strlit("registration_id");
        assert("bundle_static"@.len() == 13 && "identity_key"@.len() == 12
            && "one_time_prekeys"@.len() == 16 && "registration_id"@.len() == 15);
    }
    fields.put_raw("bundle_static", lasting);
    fields.put_text("identity_key", identity, Ghost(2));
    fields.put_raw("one_time_prekeys", list);
    fields.put_int("registration_id", registration_id as i64, Ghost(2));
    fields.finish(Ghost(2))
}

/// The numbers of a fresh set of prekeys.
pub struct PrekeyPlan {
    pub signed: u32,
    pub kyber_last_resort: u32,
    pub one_time: Vec<u32>,
    pub kyber: Vec<u32>,
}

/// Whether so many numbers follow a number.
pub open spec fn follow(ids: Seq<u32>, first: int, n: nat) -> bool {
    &&& ids.len() == n
    &&& forall|i: int| 0 <= i < n ==> (#[trigger] ids[i]) == first + i
}

/// The numbers behind one.
fn count_behind(last: u32, n: u32) -> (ids: Vec<u32>)
    requires
        last + n <= u32::MAX,
    ensures
        follow(ids@, last + 1, n as nat),
{
    let mut ids: Vec<u32> = Vec::new();
    let mut i: u32 = 0;
    while i < n
        invariant
            i <= n,
            last + n <= u32::MAX,
            follow(ids@, last + 1, i as nat),
        decreases n - i,
    {
        i = i + 1;
        ids.push(last + i);
    }
    ids
}

impl LocalDb {
    /// Chooses the numbers of a fresh set of prekeys: each store goes on behind
    /// its highest number, and the one-time kyber keys behind the last-resort one.
    /// There is no plan where the numbers run out.
    pub fn plan_prekeys(&self, n: u32) -> (plan: Option<PrekeyPlan>)
        requires
            self.wf(),
        ensures
            exists|ec: u32, spk: u32, kyber: u32| #[trigger]
                planned(self@, ec, spk, kyber, n, plan),
    {
        let spk: u32 = self.highest_of(KeyStore::SignedPrekeys);
        let kyber: u32 = self.highest_of(KeyStore::KyberPrekeys);
        let ec: u32 = self.highest_of(KeyStore::Prekeys);
        let plan = if spk as u64 + 1 > 0xffff_ffff || ec as u64 + n as u64 > 0xffff_ffff
            || kyber as u64 + 1 + n as u64 > 0xffff_ffff {
            None
        } else {
            Some(
                PrekeyPlan {
                    signed: spk + 1,
                    kyber_last_resort: kyber + 1,
                    one_time: count_behind(ec, n),
                    kyber: count_behind(kyber + 1, n),
                },
            )
        };
        assert(planned(self@, ec, spk, kyber, n, plan));
        plan
    }
}

/// Whether a plan goes on behind the highest numbers of the stores.
pub open spec fn planned(
    db: DbView,
    ec: u32,
    spk: u32,
    kyber: u32,
    n: u32,
    plan: Option<PrekeyPlan>,
) -> bool {
    &&& is_highest(by_number(db, KeyStore::Prekeys), ec)
    &&& is_highest(by_number(db, KeyStore::SignedPrekeys), spk)
    &&& is_highest(by_number(db, KeyStore::KyberPrekeys), kyber)
    &&& match plan {
        Some(plan) => {
            &&& plan.signed == spk + 1
            &&& plan.kyber_last_resort == kyber + 1
            &&& follow(plan.one_time@, ec + 1, n as nat)
            &&& follow(plan.kyber@, kyber + 2, n as nat)
        },
        None => spk + 1 > u32::MAX || ec + n > u32::MAX || kyber + 1 + n > u32::MAX,
    }
}

/// Whether a published identity is not the one that was pinned. A key that was
/// never pinned, or none at all, is no conflict.
pub open spec fn conflicts(known: Option<Seq<char>>, published: Option<Seq<char>>) -> bool {
    known is Some && published is Some && published->0.len() > 0 && known != published
}

/// Whether a published identity is not the one that was pinned. It may be an
/// honest reinstall, or it may be the server handing us a key of its own so that
/// it can read what we send next; only the person using the app can tell.
pub fn identity_conflict(known: &Option<String>, published: &Option<String>) -> (yes: bool)
    ensures
        yes == conflicts(crate::text::text_in(*known), crate::text::text_in(*published)),
{
    match (known, published) {
        (Some(known), Some(published)) => !published.as_str().is_empty() && !same_text(
            known,
            published,
        ),
        _ => false,
    }
}

/// The numbers of a fresh set of prekeys are new: no store holds any of them yet,
/// and no two keys of a store get the same.
pub proof fn planned_numbers_are_fresh(
    db: DbView,
    ec: u32,
    spk: u32,
    kyber: u32,
    n: u32,
    plan: PrekeyPlan,
    i: int,
    j: int,
)
    requires
        planned(db, ec, spk, kyber, n, Some(plan)),
        0 <= i < n,
        0 <= j < n,
    ensures
        plan.one_time@.len() == n,
        plan.kyber@.len() == n,
        !db.signed_prekeys.contains_key(plan.signed),
        !db.kyber_prekeys.contains_key(plan.kyber_last_resort),
        !db.prekeys.contains_key(plan.one_time@[i]),
        !db.kyber_prekeys.contains_key(plan.kyber@[i]),
        plan.kyber@[i] != plan.kyber_last_resort,
        i != j ==> plan.one_time@[i] != plan.one_time@[j] && plan.kyber@[i] != plan.kyber@[j],
{
}

/// A published identity is in conflict with the pinned one exactly where both are
/// there and they differ.
pub proof fn only_another_key_conflicts(known: Seq<char>, published: Seq<char>)
    ensures
        !conflicts(None, Some(published)),
        !conflicts(Some(known), None),
        !conflicts(Some(known), Some(known)),
        !conflicts(Some(known), Some(Seq::empty())),
        published != known && published.len() > 0 ==> conflicts(Some(known), Some(published)),
{
}

proof fn lemma_hex_digits(a: int, b: int)
    requires
        0 <= a < 16,
        0 <= b < 16,
        hex_digit(a) == hex_digit(b),
    ensures
        a == b,
{
    assert(((48 + a) as u8) as char as int == 48 + a || a >= 10);
    assert(((55 + a) as u8) as char as int == 55 + a || a < 10);
}

proof fn lemma_hex_length(a: Seq<u8>, b: Seq<u8>, n: nat)
    ensures
        hex_pairs(a, n).len() == hex_pairs(b, n).len(),
    decreases n,
{
    if n > 0 {
        lemma_hex_length(a, b, (n - 1) as nat);
    }
}

/// Two fingerprints are the same only where the bytes that they show are the same.
pub proof fn a_fingerprint_shows_its_bytes(a: Seq<u8>, b: Seq<u8>, n: nat)
    requires
        n <= a.len(),
        n <= b.len(),
    ensures
        hex_pairs(a, n) == hex_pairs(b, n) <==> a.take(n as int) == b.take(n as int),
    decreases n,
{
    if n > 0 {
        let m = (n - 1) as nat;
        let x = hex_pairs(a, n);
        let y = hex_pairs(b, n);
        a_fingerprint_shows_its_bytes(a, b, m);
        lemma_hex_length(a, b, m);
        assert(a.take(n as int).take(m as int) =~= a.take(m as int));
        assert(b.take(n as int).take(m as int) =~= b.take(m as int));
        if x == y {
            let k = hex_pairs(a, m).len() as int;
            assert(x[x.len() - 1] == y[y.len() - 1]);
            assert(x[x.len() - 2] == y[y.len() - 2]);
            lemma_hex_digits(a[m as int] as int % 16, b[m as int] as int % 16);
            lemma_hex_digits(a[m as int] as int / 16, b[m as int] as int / 16);
            assert(x.take(k) =~= hex_pairs(a, m));
            assert(y.take(k) =~= hex_pairs(b, m));
            assert(a.take(n as int) =~= a.take(m as int).push(a[m as int]));
            assert(b.take(n as int) =~= b.take(m as int).push(b[m as int]));
        }
        if a.take(n as int) == b.take(n as int) {
            assert(a[m as int] == a.take(n as int)[m as int]);
            assert(b[m as int] == b.take(n as int)[m as int]);
        }
    } else {
        assert(a.take(0) =~= b.take(0));
    }
}

/// A fingerprint of ten bytes is five groups of four digits, with a space between
/// every two.
pub proof fn a_fingerprint_is_five_groups(bytes: Seq<u8>, i: int)
    requires
        0 <= i < 24,
    ensures
        hex_pairs(bytes, 10).len() == 24,
        (hex_pairs(bytes, 10)[i] == ' ') == (i == 4 || i == 9 || i == 14 || i == 19),
        ({
            let at = i / 5 * 2 + i % 5 / 2;
            let byte = bytes[at] as int;
            i % 5 != 4 ==> hex_pairs(bytes, 10)[i] == hex_digit(
                if i % 5 % 2 == 0 {
                    byte / 16
                } else {
                    byte % 16
                },
            )
        }),
{
    reveal_with_fuel(hex_pairs, 11);
    assert forall|n: int| 0 <= n < 16 implies #[trigger] hex_digit(n) != ' ' by {
        assert(((48 + n) as u8) as char as int == 48 + n || n >= 10);
        assert(((55 + n) as u8) as char as int == 55 + n || n < 10);
    }
}

/// An envelope that cannot be read is refused for what is wrong with it.
pub proof fn an_unreadable_envelope_is_refused_for_a_reason(
    text: Seq<char>,
    f: Map<Seq<char>, Seq<char>>,
)
    ensures
        record_in(text) is None ==> envelope_in(text) == Err::<
            (EnvelopeKind, Seq<u8>),
            EnvelopeFault,
        >(EnvelopeFault::BadEnvelope),
        record_in(text) == Some(f) && (text_field(f, "t"@) is None || text_field(f, "c"@) is None)
            ==> envelope_in(text) == Err::<(EnvelopeKind, Seq<u8>), EnvelopeFault>(
            EnvelopeFault::BadEnvelope,
        ),
        record_in(text) == Some(f) && text_field(f, "t"@) is Some && text_field(f, "c"@) is Some
            && b64_decoded(text_field(f, "c"@)->0) is None ==> envelope_in(text) == Err::<
            (EnvelopeKind, Seq<u8>),
            EnvelopeFault,
        >(EnvelopeFault::BadBase64),
        record_in(text) == Some(f) && text_field(f, "t"@) is Some && text_field(f, "t"@)->0
            != "prekey"@ && text_field(f, "t"@)->0 != "signal"@ && text_field(f, "c"@) is Some
            && b64_decoded(text_field(f, "c"@)->0) is Some ==> envelope_in(text) == Err::<
            (EnvelopeKind, Seq<u8>),
            EnvelopeFault,
        >(EnvelopeFault::UnknownKind),
{
}

/// A bundle that lacks a part, or has one that is not base64, is refused for that
/// part.
pub proof fn an_unusable_bundle_is_refused_for_its_part(
    text: Seq<char>,
    f: Map<Seq<char>, Seq<char>>,
    part: BundlePart,
    name: Seq<char>,
)
    ensures
        json_read(text) is None ==> bundle_in(text) == Err::<BundleView, BundleFault>(
            BundleFault::NotJson,
        ),
        record_in(text) == Some(f) && int_field(f, "registration_id"@) is None ==> bundle_in(text)
            == Err::<BundleView, BundleFault>(BundleFault::Missing(BundlePart::RegistrationId)),
        record_in(text) == Some(f) && int_field(f, "registration_id"@) == Some(1int) && text_field(
            f,
            "identity_key"@,
        ) is None ==> bundle_in(text) == Err::<BundleView, BundleFault>(
            BundleFault::Missing(BundlePart::IdentityKey),
        ),
        text_field(f, name) is None ==> bytes_part(f, name, part) == Err::<Seq<u8>, BundleFault>(
            BundleFault::Missing(part),
        ),
        text_field(f, name) is Some && b64_decoded(text_field(f, name)->0) is None ==> bytes_part(
            f,
            name,
            part,
        ) == Err::<Seq<u8>, BundleFault>(BundleFault::BadBase64(part)),
        int_field(f, name) is None ==> number_part(f, name, part) == Err::<u32, BundleFault>(
            BundleFault::Missing(part),
        ),
        int_field(f, name) is Some && int_field(f, name)->0 < 0 ==> number_part(f, name, part)
            == Err::<u32, BundleFault>(BundleFault::Missing(part)),
        bundle_in(text) is Ok ==> record_in(text) is Some,
{
}

/// The two signed keys of a bundle are refused each under its own name.
pub proof fn each_signed_key_is_refused_under_its_name(
    f: Map<Seq<char>, Seq<char>>,
    id: BundlePart,
    public: BundlePart,
    signature: BundlePart,
)
    ensures
        int_field(f, "id"@) is None ==> signed_part(f, id, public, signature) == Err::<
            SignedKeyView,
            BundleFault,
        >(BundleFault::Missing(id)),
        int_field(f, "id"@) == Some(0int) && text_field(f, "public"@) is None ==> signed_part(
            f,
            id,
            public,
            signature,
        ) == Err::<SignedKeyView, BundleFault>(BundleFault::Missing(public)),
        int_field(f, "id"@) == Some(0int) && text_field(f, "public"@) is Some && b64_decoded(
            text_field(f, "public"@)->0,
        ) is Some && text_field(f, "signature"@) is None ==> signed_part(f, id, public, signature)
            == Err::<SignedKeyView, BundleFault>(BundleFault::Missing(signature)),
{
}

/// The digits of a fingerprint are `0` to `9` and then `A` to `F`.
pub proof fn the_digits_of_a_fingerprint(n: int)
    requires
        0 <= n < 16,
    ensures
        n < 10 ==> hex_digit(n) as int == '0' as int + n,
        n >= 10 ==> hex_digit(n) as int == 'A' as int + (n - 10),
{
    assert(((48 + n) as u8) as char as int == 48 + n || n >= 10);
    assert(((55 + n) as u8) as char as int == 55 + n || n < 10);
}

} // verus!
