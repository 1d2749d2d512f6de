//! Encrypted history archive.
//!
//! Message history cannot be handed to a new device by the server without
//! breaking end-to-end encryption, so instead each device encrypts every message
//! it sends or receives again under a key only the user holds, and uploads the
//! result. Restoring elsewhere needs nothing but the recovery key.
//!
//! The key is 32 random bytes generated on the device, not derived from a
//! passphrase, so it cannot be weak or guessed, and shown to the user on request
//! as a grouped base32 code.
#[allow(unused_imports)]
use vstd::utf8::{decode_utf8, encode_utf8, encode_utf8_decode_utf8, encode_utf8_valid_utf8, valid_utf8};
use vstd::prelude::*;

#[allow(unused_imports)]
use crate::codec::{b64_decoded, b64_encoded, base32_decoded, base32_encoded, is_base32};
use crate::codec::{b64_decode, b64_encode, base32_decode, base32_encode, strict_text};
use crate::db::StoredMessage;
use crate::json::{read_record, Fields};
#[allow(unused_imports)]
use crate::json::{bool_field, int_field, record_in, text_field, written, JsonView};
use crate::sealing::{box_up, fresh_key, key_from, unbox, BoxFault};
#[allow(unused_imports)]
use crate::sealing::{boxed, unboxed, MAX_SEALED_BYTES, NONCE_LEN};
#[allow(unused_imports)]
use crate::text::lemma_ascii_bytes;
use crate::text::{chars_of, slice_text};

verus! {

/// Characters per group in the printed recovery code.
pub const GROUP: usize = 4;

/// Why the archive cannot be used.
#[derive(Clone, Copy, Debug, PartialEq, Eq, Structural)]
pub enum ArchiveError {
    /// The recovery key is not one.
    InvalidRecoveryKey,
    /// The entry was sealed with another key.
    WrongRecoveryKey,
    /// The entry is not a sealed one.
    CorruptEntry,
    /// The entry is authentic but not a message.
    NotAMessage,
    /// The entry is too long to be sealed.
    TooLong,
}

impl ArchiveError {
    /// What is said of each error.
    pub open spec fn spec_message(self) -> Seq<char> {
        match self {
            ArchiveError::InvalidRecoveryKey => "invalid_recovery_key"@,
            ArchiveError::WrongRecoveryKey => "wrong_recovery_key"@,
            ArchiveError::CorruptEntry => "corrupt history entry"@,
            ArchiveError::NotAMessage => "corrupt history entry"@,
            ArchiveError::TooLong => "cannot encrypt history entry"@,
        }
    }

    /// What is said of the error.
    pub fn message(&self) -> (text: &'static str)
        ensures
            text@ == self.spec_message(),
    {
        match self {
            ArchiveError::InvalidRecoveryKey => "invalid_recovery_key",
            ArchiveError::WrongRecoveryKey => "wrong_recovery_key",
            ArchiveError::CorruptEntry => "corrupt history entry",
            ArchiveError::NotAMessage => "corrupt history entry",
            ArchiveError::TooLong => "cannot encrypt history entry",
        }
    }
}

/// One archived message, as stored inside the encrypted blob.
pub struct ArchiveEntry {
    pub id: String,
    pub contact: String,
    pub mine: bool,
    pub kind: String,
    pub text: String,
    pub state: String,
    pub created_at: i64,
}

/// An archived message as a plain value.
pub struct EntryView {
    pub id: Seq<char>,
    pub contact: Seq<char>,
    pub mine: bool,
    pub kind: Seq<char>,
    pub text: Seq<char>,
    pub state: Seq<char>,
    pub created_at: i64,
}

impl View for ArchiveEntry {
    type V = EntryView;

    open spec fn view(&self) -> EntryView {
        EntryView {
            id: self.id@,
            contact: self.contact@,
            mine: self.mine,
            kind: self.kind@,
            text: self.text@,
            state: self.state@,
            created_at: self.created_at,
        }
    }
}

/// The state of entries archived before delivery states existed.
pub fn default_state() -> (state: String)
    ensures
        state@ == "sent"@,
{
    "sent".to_string()
}

impl From<&StoredMessage> for ArchiveEntry {
    fn from(m: &StoredMessage) -> (entry: Self) {
        ArchiveEntry {
            id: m.id.clone(),
            contact: m.contact.clone(),
            mine: m.mine,
            kind: m.kind.clone(),
            text: m.text.clone(),
            state: m.state.clone(),
            created_at: m.created_at,
        }
    }
}

impl vstd::std_specs::convert::FromSpecImpl<&StoredMessage> for ArchiveEntry {
    open spec fn obeys_from_spec() -> bool {
        true
    }

    open spec fn from_spec(m: &StoredMessage) -> ArchiveEntry {
        ArchiveEntry {
            id: m.id,
            contact: m.contact,
            mine: m.mine,
            kind: m.kind,
            text: m.text,
            state: m.state,
            created_at: m.created_at,
        }
    }
}

impl From<ArchiveEntry> for StoredMessage {
    fn from(e: ArchiveEntry) -> (message: Self) {
        StoredMessage {
            id: e.id,
            contact: e.contact,
            mine: e.mine,
            kind: e.kind,
            text: e.text,
            state: e.state,
            delivered_at: None,
            read_at: None,
            created_at: e.created_at,
        }
    }
}

impl vstd::std_specs::convert::FromSpecImpl<ArchiveEntry> for StoredMessage {
    open spec fn obeys_from_spec() -> bool {
        true
    }

    open spec fn from_spec(e: ArchiveEntry) -> StoredMessage {
        StoredMessage {
            id: e.id,
            contact: e.contact,
            mine: e.mine,
            kind: e.kind,
            text: e.text,
            state: e.state,
            delivered_at: None,
            read_at: None,
            created_at: e.created_at,
        }
    }
}

/// An entry as a record.
pub open spec fn entry_record(e: EntryView) -> Map<Seq<char>, Seq<char>> {
    Map::empty().insert("contact"@, written(JsonView::Text(e.contact))).insert(
        "created_at"@,
        written(JsonView::Int(e.created_at as int)),
    ).insert("id"@, written(JsonView::Text(e.id))).insert(
        "kind"@,
        written(JsonView::Text(e.kind)),
    ).insert("mine"@, written(JsonView::Bool(e.mine))).insert(
        "state"@,
        written(JsonView::Text(e.state)),
    ).insert("text"@, written(JsonView::Text(e.text)))
}

/// An entry as JSON.
pub open spec fn entry_json(e: EntryView) -> Seq<char> {
    written(JsonView::Record(entry_record(e)))
}

/// The entry that a record holds, if it holds one. Entries archived before
/// delivery states existed count as sent.
pub open spec fn entry_in(text: Seq<char>) -> Option<EntryView> {
    match record_in(text) {
        None => None,
        Some(f) => {
            let state = if f.contains_key("state"@) {
                text_field(f, "state"@)
            } else {
                Some("sent"@)
            };
            let at = int_field(f, "created_at"@);
            if text_field(f, "id"@) is Some && text_field(f, "contact"@) is Some && bool_field(
                f,
                "mine"@,
            ) is Some && text_field(f, "kind"@) is Some && text_field(f, "text"@) is Some
                && state is Some && at is Some && i64::MIN <= at->0 <= i64::MAX {
                Some(
                    EntryView {
                        id: text_field(f, "id"@)->0,
                        contact: text_field(f, "contact"@)->0,
                        mine: bool_field(f, "mine"@)->0,
                        kind: text_field(f, "kind"@)->0,
                        text: text_field(f, "text"@)->0,
                        state: state->0,
                        created_at: at->0 as i64,
                    },
                )
            } else {
                None
            }
        },
    }
}

proof fn lemma_field_names_differ()
    ensures
        "contact"@ != "created_at"@,
        "contact"@ != "id"@,
        "contact"@ != "kind"@,
        "contact"@ != "mine"@,
        "contact"@ != "state"@,
        "contact"@ != "text"@,
        "created_at"@ != "id"@,
        "created_at"@ != "kind"@,
        "created_at"@ != "mine"@,
        "created_at"@ != "state"@,
        "created_at"@ != "text"@,
        "id"@ != "kind"@,
        "id"@ != "mine"@,
        "id"@ != "state"@,
        "id"@ != "text"@,
        "kind"@ != "mine"@,
        "kind"@ != "state"@,
        "kind"@ != "text"@,
        "mine"@ != "state"@,
        "mine"@ != "text"@,
        "state"@ != "text"@,
{
    reveal_strlit("contact");
    reveal_strlit("created_at");
    reveal_strlit("id");
    reveal_strlit("kind");
    reveal_strlit("mine");
    reveal_strlit("state");
    reveal_strlit("text");
    assert("contact"@.len() == 7 && "created_at"@.len() == 10 && "id"@.len() == 2 && "kind"@.len()
        == 4 && "mine"@.len() == 4 && "state"@.len() == 5 && "text"@.len() == 4);
    assert("kind"@[0] == 'k' && "mine"@[0] == 'm' && "text"@[0] == 't');
}

/// Writes an entry down, so that it reads back as it was.
pub fn write_entry(e: &ArchiveEntry) -> (text: String)
    ensures
        text@ == entry_json(e@),
        entry_in(text@) == Some(e@),
{
    proof {
        lemma_field_names_differ();
    }
    let mut fields = Fields::new();
    proof {
        reveal_strlit("contact");
        reveal_strlit("created_at");
        reveal_strlit("id");
        reveal_strlit("kind");
        reveal_strlit("mine");
        reveal_strlit("state");
        reveal_strlit("text");
    }
    fields.put_text("contact", &e.contact, Ghost(0));
    fields.put_int("created_at", e.created_at, Ghost(0));
    fields.put_text("id", &e.id, Ghost(0));
    fields.put_text("kind", &e.kind, Ghost(0));
    fields.put_bool("mine", e.mine, Ghost(0));
    fields.put_text("state", &e.state, Ghost(0));
    fields.put_text("text", &e.text, Ghost(0));
    assert(fields@ == entry_record(e@));
    fields.finish(Ghost(0))
}

/// Reads an entry.
pub fn read_entry(text: &str) -> (entry: Option<ArchiveEntry>)
    ensures
        match entry {
            Some(entry) => entry_in(text@) == Some(entry@),
            None => entry_in(text@) is None,
        },
{
    let fields = match read_record(text) {
        Some(fields) => fields,
        None => {
            return None;
        },
    };
    let state = match fields.raw("state") {
        Some(_) => fields.text("state"),
        None => Some(default_state()),
    };
    let at: i128 = match fields.number("created_at") {
        Some(at) => at,
        None => {
            return None;
        },
    };
    if at < -0x8000_0000_0000_0000 || at > 0x7fff_ffff_ffff_ffff {
        return None;
    }
    match (
        fields.text("id"),
        fields.text("contact"),
        fields.flag("mine"),
        fields.text("kind"),
        fields.text("text"),
        state,
    ) {
        (Some(id), Some(contact), Some(mine), Some(kind), Some(text), Some(state)) => Some(
            ArchiveEntry { id, contact, mine, kind, text, state, created_at: at as i64 },
        ),
        _ => None,
    }
}

/// The symmetric key protecting the history archive.
pub struct ArchiveKey(pub [u8; 32]);

/// A text with a dash between its groups.
pub open spec fn grouped(text: Seq<char>) -> Seq<char>
    decreases text.len(),
{
    if text.len() <= GROUP {
        text
    } else {
        grouped(text.take((text.len() - 1) / GROUP as int * GROUP)) + seq!['-'] + text.skip(
            (text.len() - 1) / GROUP as int * GROUP,
        )
    }
}

/// Whether a character counts in a recovery code.
pub open spec fn counts_in_code(c: char) -> bool {
    ('a' <= c <= 'z') || ('A' <= c <= 'Z') || ('0' <= c <= '9')
}

/// The capital of a letter; any other character as it is.
pub open spec fn capital(c: char) -> char {
    if 'a' <= c <= 'z' {
        ((c as u32 - 32) as u8) as char
    } else {
        c
    }
}

/// What is left of a recovery code without dashes, spaces and letter case.
pub open spec fn cleaned(code: Seq<char>) -> Seq<char>
    decreases code.len(),
{
    if code.len() == 0 {
        Seq::empty()
    } else {
        let front = cleaned(code.drop_last());
        if counts_in_code(code.last()) {
            front.push(capital(code.last()))
        } else {
            front
        }
    }
}

/// The key behind a recovery code. 32 bytes take 52 characters.
pub open spec fn key_in_code(code: Seq<char>) -> Option<Seq<u8>> {
    if cleaned(code).len() > 52 {
        None
    } else {
        match base32_decoded(cleaned(code)) {
            Some(key) if key.len() == 32 => Some(key),
            _ => None,
        }
    }
}

/// The key behind its base64.
pub open spec fn key_in_b64(raw: Seq<char>) -> Option<Seq<u8>> {
    match b64_decoded(raw) {
        Some(key) if key.len() == 32 => Some(key),
        _ => None,
    }
}

proof fn lemma_cleaned_of_ends(a: Seq<char>, b: Seq<char>)
    ensures
        cleaned(a + b) == cleaned(a) + cleaned(b),
    decreases b.len(),
{
    if b.len() == 0 {
        assert(a + b =~= a);
        assert(cleaned(a) + cleaned(b) =~= cleaned(a));
    } else {
        assert((a + b).drop_last() =~= a + b.drop_last());
        lemma_cleaned_of_ends(a, b.drop_last());
        assert(cleaned(a + b) =~= cleaned(a) + cleaned(b));
    }
}

proof fn lemma_clean_stays(text: Seq<char>)
    requires
        forall|i: int| 0 <= i < text.len() ==> is_base32(#[trigger] text[i]),
    ensures
        cleaned(text) == text,
    decreases text.len(),
{
    if text.len() > 0 {
        let front = text.drop_last();
        assert forall|i: int| 0 <= i < front.len() implies is_base32(#[trigger] front[i]) by {
            assert(front[i] == text[i]);
        }
        lemma_clean_stays(front);
        assert(is_base32(text[text.len() - 1]));
        assert(cleaned(text) =~= text);
    } else {
        assert(cleaned(text) =~= text);
    }
}

proof fn lemma_grouping_is_cleaned_away(text: Seq<char>)
    requires
        forall|i: int| 0 <= i < text.len() ==> is_base32(#[trigger] text[i]),
    ensures
        cleaned(grouped(text)) == text,
    decreases text.len(),
{
    if text.len() <= GROUP {
        lemma_clean_stays(text);
    } else {
        let at = (text.len() - 1) / GROUP as int * GROUP;
        assert(0 < at < text.len());
        let front = text.take(at);
        let back = text.skip(at);
        assert forall|i: int| 0 <= i < front.len() implies is_base32(#[trigger] front[i]) by {
            assert(front[i] == text[i]);
        }
        assert forall|i: int| 0 <= i < back.len() implies is_base32(#[trigger] back[i]) by {
            assert(back[i] == text[i + at]);
        }
        lemma_grouping_is_cleaned_away(front);
        lemma_clean_stays(back);
        let dash = seq!['-'];
        lemma_cleaned_of_ends(grouped(front), dash);
        lemma_cleaned_of_ends(grouped(front) + dash, back);
        assert(dash.drop_last() =~= Seq::<char>::empty());
        assert(cleaned(Seq::<char>::empty()) =~= Seq::<char>::empty());
        assert(cleaned(dash) =~= Seq::<char>::empty());
        assert(cleaned(grouped(text)) =~= text);
    }
}

/// A recovery code survives being retyped: letter case, dashes, spaces and any
/// other character between its letters and digits make no difference.
pub proof fn codes_that_read_the_same_are_the_same(a: Seq<char>, b: Seq<char>)
    requires
        cleaned(a) == cleaned(b),
    ensures
        key_in_code(a) == key_in_code(b),
{
}

/// A letter counts in a recovery code whatever its case, and a character that is
/// neither letter nor digit does not.
pub proof fn case_and_spacing_do_not_matter(front: Seq<char>, c: char, back: Seq<char>)
    ensures
        'a' <= c <= 'z' ==> key_in_code(front + seq![c] + back) == key_in_code(
            front + seq![capital(c)] + back,
        ),
        !counts_in_code(c) ==> key_in_code(front + seq![c] + back) == key_in_code(front + back),
{
    let one = seq![c];
    let other = seq![capital(c)];
    lemma_cleaned_of_ends(front, one);
    lemma_cleaned_of_ends(front + one, back);
    lemma_cleaned_of_ends(front, other);
    lemma_cleaned_of_ends(front + other, back);
    lemma_cleaned_of_ends(front, back);
    assert(one.drop_last() =~= Seq::<char>::empty());
    assert(other.drop_last() =~= Seq::<char>::empty());
    if 'a' <= c <= 'z' {
        let n = c as u32;
        assert(65 <= n - 32 <= 90);
        assert(capital(capital(c)) == capital(c));
        assert(cleaned(one) =~= cleaned(other));
    }
    if !counts_in_code(c) {
        assert(one.last() == c);
        assert(cleaned(Seq::<char>::empty()) =~= Seq::<char>::empty());
        assert(cleaned(one) =~= Seq::<char>::empty());
        assert(cleaned(front) + cleaned(one) =~= cleaned(front));
    }
}

impl ArchiveKey {
    /// A fresh key for a new account.
    pub fn generate() -> (key: ArchiveKey) {
        ArchiveKey(fresh_key())
    }

    /// The key as the user sees it: uppercase base32 in dash-separated groups, an
    /// alphabet without lowercase so it survives being written down and retyped.
    pub fn to_recovery_code(&self) -> (code: String)
        ensures
            code@ == grouped(base32_encoded(self.0@)),
            key_in_code(code@) == Some(self.0@),
    {
        let encoded = base32_encode(self.0.as_slice());
        let chars = chars_of(&encoded);
        let mut code = slice_text(&chars, 0, 4);
        let mut at: usize = 4;
        assert(chars@.take(4) =~= chars@.subrange(0, 4));
        while at < 52
            invariant
                chars@.len() == 52,
                4 <= at <= 52,
                at % 4 == 0,
                code@ == grouped(chars@.take(at as int)),
            decreases 52 - at,
        {
            let group = slice_text(&chars, at, at + 4);
            let ghost front = chars@.take(at as int);
            let ghost more = chars@.take(at + 4);
            proof {
                assert(more.take(at as int) =~= front);
                assert(more.skip(at as int) =~= group@);
                assert((more.len() - 1) / 4 * 4 == at);
            }
            code.push('-');
            code.append(&group);
            at = at + 4;
            assert(code@ =~= grouped(more));
        }
        proof {
            assert(chars@.take(52) =~= chars@);
            lemma_grouping_is_cleaned_away(chars@);
        }
        code
    }

    /// Parses a recovery code, ignoring dashes, spaces and letter case.
    pub fn from_recovery_code(code: &str) -> (key: Result<ArchiveKey, ArchiveError>)
        ensures
            match key {
                Ok(key) => key_in_code(code@) == Some(key.0@),
                Err(e) => key_in_code(code@) is None && e == ArchiveError::InvalidRecoveryKey,
            },
    {
        let chars = chars_of(code);
        let mut clean = String::new();
        let mut count: usize = 0;
        let mut i: usize = 0;
        assert(chars@.take(0) =~= Seq::<char>::empty());
        while i < chars.len()
            invariant
                chars@ == code@,
                i <= chars@.len(),
                count <= i,
                clean@.len() == count,
                clean@ == cleaned(chars@.take(i as int)),
                forall|j: int| 0 <= j < clean@.len() ==> (#[trigger] clean@[j]) as u32 <= 0x7f,
            decreases chars@.len() - i,
        {
            let c: char = chars[i];
            proof {
                assert(chars@.take(i + 1).drop_last() =~= chars@.take(i as int));
                assert(chars@.take(i + 1).last() == c);
            }
            if ('a' <= c && c <= 'z') || ('A' <= c && c <= 'Z') || ('0' <= c && c <= '9') {
                let upper: char = if 'a' <= c && c <= 'z' {
                    ((c as u32 - 32) as u8) as char
                } else {
                    c
                };
                clean.push(upper);
                count = count + 1;
            }
            i = i + 1;
        }
        assert(chars@.take(chars@.len() as int) =~= chars@);
        if count > 52 {
            return Err(ArchiveError::InvalidRecoveryKey);
        }
        proof {
            lemma_ascii_bytes(clean@);
        }
        match base32_decode(&clean) {
            Some(bytes) => match key_from(&bytes) {
                Some(key) => Ok(ArchiveKey(key)),
                None => Err(ArchiveError::InvalidRecoveryKey),
            },
            None => Err(ArchiveError::InvalidRecoveryKey),
        }
    }

    /// Restores a key previously saved on this device.
    pub fn from_b64(raw: &str) -> (key: Result<ArchiveKey, ArchiveError>)
        ensures
            match key {
                Ok(key) => key_in_b64(raw@) == Some(key.0@),
                Err(e) => key_in_b64(raw@) is None && e == ArchiveError::InvalidRecoveryKey,
            },
    {
        match b64_decode(raw) {
            Some(bytes) => match key_from(&bytes) {
                Some(key) => Ok(ArchiveKey(key)),
                None => Err(ArchiveError::InvalidRecoveryKey),
            },
            None => Err(ArchiveError::InvalidRecoveryKey),
        }
    }

    /// The key as it is saved on this device.
    pub fn to_b64(&self) -> (raw: String)
        ensures
            raw@ == b64_encoded(self.0@),
            key_in_b64(raw@) == Some(self.0@),
    {
        b64_encode(self.0.as_slice())
    }

    /// Seals one message.
    pub fn encrypt_entry(&self, entry: &ArchiveEntry) -> (blob: Result<String, ArchiveError>)
        ensures
            encode_utf8(entry_json(entry@)).len() > MAX_SEALED_BYTES ==> blob == Err::<
                String,
                ArchiveError,
            >(ArchiveError::TooLong),
            encode_utf8(entry_json(entry@)).len() <= MAX_SEALED_BYTES ==> {
                &&& blob is Ok
                &&& exists|nonce: Seq<u8>|
                    nonce.len() == NONCE_LEN && blob->Ok_0@ == #[trigger] boxed(
                        self.0@,
                        nonce,
                        encode_utf8(entry_json(entry@)),
                    )
                &&& entry_behind(self.0@, blob->Ok_0@) == Ok::<EntryView, ArchiveError>(entry@)
            },
    {
        let text = write_entry(entry);
        proof {
            encode_utf8_valid_utf8(text@);
            encode_utf8_decode_utf8(text@);
        }
        match box_up(&self.0, text.as_str().as_bytes()) {
            Some(blob) => Ok(blob),
            None => Err(ArchiveError::TooLong),
        }
    }

    /// Opens one message.
    pub fn decrypt_entry(&self, blob: &str) -> (entry: Result<ArchiveEntry, ArchiveError>)
        ensures
            match entry {
                Ok(entry) => entry_behind(self.0@, blob@) == Ok::<EntryView, ArchiveError>(entry@),
                Err(e) => entry_behind(self.0@, blob@) == Err::<EntryView, ArchiveError>(e),
            },
    {
        let plain = match unbox(&self.0, blob) {
            Ok(plain) => plain,
            Err(BoxFault::Corrupt) => {
                return Err(ArchiveError::CorruptEntry);
            },
            Err(BoxFault::WrongKey) => {
                return Err(ArchiveError::WrongRecoveryKey);
            },
        };
        match strict_text(plain.as_slice()) {
            Some(text) => match read_entry(&text) {
                Some(entry) => Ok(entry),
                None => Err(ArchiveError::NotAMessage),
            },
            None => Err(ArchiveError::NotAMessage),
        }
    }
}

/// The message behind a sealed entry.
pub open spec fn entry_behind(key: Seq<u8>, blob: Seq<char>) -> Result<EntryView, ArchiveError> {
    match unboxed(key, blob) {
        Err(BoxFault::Corrupt) => Err(ArchiveError::CorruptEntry),
        Err(BoxFault::WrongKey) => Err(ArchiveError::WrongRecoveryKey),
        Ok(plain) => if valid_utf8(plain) && entry_in(decode_utf8(plain)) is Some {
            Ok(entry_in(decode_utf8(plain))->0)
        } else {
            Err(ArchiveError::NotAMessage)
        },
    }
}

/// A message that was archived comes back as it was, but for the receipts, which
/// are not archived.
pub proof fn an_archived_message_comes_back(m: StoredMessage)
    ensures
        ({
            let entry = <ArchiveEntry as vstd::std_specs::convert::FromSpec<
                &StoredMessage,
            >>::from_spec(&m);
            let back = <StoredMessage as vstd::std_specs::convert::FromSpec<
                ArchiveEntry,
            >>::from_spec(entry);
            &&& back.id == m.id
            &&& back.contact == m.contact
            &&& back.mine == m.mine
            &&& back.kind == m.kind
            &&& back.text == m.text
            &&& back.state == m.state
            &&& back.created_at == m.created_at
            &&& back.delivered_at is None
            &&& back.read_at is None
        }),
{
}

/// An archived message is read as it was written, each part under its own name; one
/// of before there were states counts as sent.
pub proof fn an_entry_is_read_by_its_names(
    text: Seq<char>,
    f: Map<Seq<char>, Seq<char>>,
    at: i64,
    entry: ArchiveEntry,
)
    requires
        record_in(text) == Some(f),
        text_field(f, "id"@) is Some,
        text_field(f, "contact"@) is Some,
        bool_field(f, "mine"@) is Some,
        text_field(f, "kind"@) is Some,
        text_field(f, "text"@) is Some,
        text_field(f, "state"@) is Some || !f.contains_key("state"@),
        int_field(f, "created_at"@) == Some(at as int),
        entry_in(text) is Some ==> entry_in(text) == Some(entry@),
    ensures
        entry_in(text) is Some,
        entry.id@ == text_field(f, "id"@)->0,
        entry.contact@ == text_field(f, "contact"@)->0,
        entry.mine == bool_field(f, "mine"@)->0,
        entry.kind@ == text_field(f, "kind"@)->0,
        entry.text@ == text_field(f, "text"@)->0,
        text_field(f, "state"@) is Some ==> entry.state@ == text_field(f, "state"@)->0,
        !f.contains_key("state"@) ==> entry.state@ == "sent"@,
        entry.created_at == at,
{
}

/// Only a key of 32 bytes is a recovery key, in either form.
pub proof fn a_recovery_key_has_its_length(code: Seq<char>, raw: Seq<char>)
    ensures
        key_in_code(code) is Some ==> key_in_code(code)->0.len() == 32 && base32_decoded(
            cleaned(code),
        ) == key_in_code(code),
        cleaned(code).len() <= 52 && base32_decoded(cleaned(code)) is Some && base32_decoded(
            cleaned(code),
        )->0.len() == 32 ==> key_in_code(code) is Some,
        cleaned(code).len() > 52 ==> key_in_code(code) is None,
        key_in_b64(raw) is Some <==> b64_decoded(raw) is Some && b64_decoded(raw)->0.len() == 32,
        key_in_b64(raw) is Some ==> key_in_b64(raw) == b64_decoded(raw),
{
}

/// An entry that another key opens is told apart from one that is damaged.
pub proof fn a_wrong_key_is_told_from_a_damaged_entry(key: Seq<u8>, blob: Seq<char>)
    ensures
        b64_decoded(blob) is None ==> entry_behind(key, blob) == Err::<EntryView, ArchiveError>(
            ArchiveError::CorruptEntry,
        ),
        unboxed(key, blob) == Err::<Seq<u8>, BoxFault>(BoxFault::WrongKey) ==> entry_behind(key, blob)
            == Err::<EntryView, ArchiveError>(ArchiveError::WrongRecoveryKey),
        entry_behind(key, blob) is Ok ==> unboxed(key, blob) is Ok && entry_in(
            decode_utf8(unboxed(key, blob)->Ok_0),
        ) == Some(entry_behind(key, blob)->Ok_0),
{
}

/// A recovery code is in groups of four, with a dash between every two.
pub proof fn a_code_is_in_groups_of_four(text: Seq<char>, i: int)
    requires
        text.len() > 0,
        0 <= i < grouped(text).len(),
    ensures
        grouped(text).len() == text.len() + (text.len() - 1) / 4,
        grouped(text)[i] == (if i % 5 == 4 {
            '-'
        } else {
            text[i / 5 * 4 + i % 5]
        }),
    decreases text.len(),
{
    let n = text.len() as int;
    if n > 4 {
        let at = (n - 1) / 4 * 4;
        let front = text.take(at);
        let back = text.skip(at);
        assert(0 < at < n && at % 4 == 0 && n - at <= 4);
        assert(grouped(text) == grouped(front) + seq!['-'] + back);
        lemma_grouped_length(front);
        let m = at + (at - 1) / 4;
        assert((at - 1) / 4 == at / 4 - 1);
        assert(m % 5 == 4);
        if i < m {
            a_code_is_in_groups_of_four(front, i);
            assert(grouped(text)[i] == grouped(front)[i]);
        } else if i > m {
            assert(grouped(text)[i] == back[i - m - 1]);
        }
    }
}

proof fn lemma_grouped_length(text: Seq<char>)
    requires
        text.len() > 0,
    ensures
        grouped(text).len() == text.len() + (text.len() - 1) / 4,
    decreases text.len(),
{
    let n = text.len() as int;
    if n > 4 {
        let at = (n - 1) / 4 * 4;
        lemma_grouped_length(text.take(at));
        assert((at - 1) / 4 == at / 4 - 1);
    }
}

/// Letters count whatever their case and digits count; nothing else does.
pub proof fn what_counts_in_a_code(front: Seq<char>, c: char)
    ensures
        ('A' <= c <= 'Z') || ('0' <= c <= '9') ==> cleaned(front.push(c)) == cleaned(front).push(c),
        c == '-' || c == ' ' ==> cleaned(front.push(c)) == cleaned(front),
        c == 'a' ==> cleaned(front.push(c)) == cleaned(front).push('A'),
        c == 'z' ==> cleaned(front.push(c)) == cleaned(front).push('Z'),
        cleaned(Seq::empty()).len() == 0,
{
    assert(front.push(c).drop_last() =~= front);
}

} // verus!
