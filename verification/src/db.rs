//! Local client database: identity and protocol state, account profile, contacts
//! and message history.
//!
//! Everything worth stealing — message text, contact names and pictures, the
//! identity private key, the session token, and the whole store of sessions and
//! keys — is sealed with this device's key before it is stored.
#[allow(unused_imports)]
use vstd::utf8::encode_utf8;
use vstd::prelude::*;

#[allow(unused_imports)]
use crate::codec::{b64_decoded, utf8_lossy};
use crate::codec::{b64_decode, b64_encode};
use crate::keystore::{DeviceKey, StorageError};
#[allow(unused_imports)]
use crate::keystore::opened;
#[allow(unused_imports)]
use crate::sealing::{boxed, MAX_SEALED_BYTES, NONCE_LEN};
use crate::table::{Table, TableKey, Timed};

pub mod contacts;
pub mod laws;
pub mod messages;
pub mod meta;
pub mod migrate;
pub mod records;

verus! {

/// A locally stored chat message (either direction).
pub struct StoredMessage {
    pub id: String,
    pub contact: String,
    pub mine: bool,
    /// "text" or "image" (image content is a data URL).
    pub kind: String,
    pub text: String,
    /// Delivery state of our own messages: "sent", "delivered" or "read".
    pub state: String,
    /// When each step was reported, for the message info panel.
    pub delivered_at: Option<i64>,
    pub read_at: Option<i64>,
    pub created_at: i64,
}

/// A stored message as a plain value.
pub struct MessageView {
    pub id: Seq<char>,
    pub contact: Seq<char>,
    pub mine: bool,
    pub kind: Seq<char>,
    pub text: Seq<char>,
    pub state: Seq<char>,
    pub delivered_at: Option<i64>,
    pub read_at: Option<i64>,
    pub created_at: i64,
}

impl View for StoredMessage {
    type V = MessageView;

    open spec fn view(&self) -> MessageView {
        MessageView {
            id: self.id@,
            contact: self.contact@,
            mine: self.mine,
            kind: self.kind@,
            text: self.text@,
            state: self.state@,
            delivered_at: self.delivered_at,
            read_at: self.read_at,
            created_at: self.created_at,
        }
    }
}

impl Timed for StoredMessage {
    open spec fn moment(row: MessageView) -> i64 {
        row.created_at
    }

    fn time(&self) -> (at: i64) {
        self.created_at
    }
}

impl StoredMessage {
    /// The same message again.
    pub fn copy(&self) -> (again: StoredMessage)
        ensures
            again@ == self@,
    {
        StoredMessage {
            id: self.id.clone(),
            contact: self.contact.clone(),
            mine: self.mine,
            kind: self.kind.clone(),
            text: self.text.clone(),
            state: self.state.clone(),
            delivered_at: self.delivered_at,
            read_at: self.read_at,
            created_at: self.created_at,
        }
    }
}

/// A contact as it is cached.
pub struct CachedContact {
    pub alias: String,
    /// Mirror of the server's list: "incoming", "outgoing", "accepted" or
    /// "blocked".
    pub state: String,
}

/// A cached contact as a plain value.
pub struct CachedContactView {
    pub alias: Seq<char>,
    pub state: Seq<char>,
}

impl View for CachedContact {
    type V = CachedContactView;

    open spec fn view(&self) -> CachedContactView {
        CachedContactView { alias: self.alias@, state: self.state@ }
    }
}

impl CachedContact {
    /// The same contact again.
    pub fn copy(&self) -> (again: CachedContact)
        ensures
            again@ == self@,
    {
        CachedContact { alias: self.alias.clone(), state: self.state.clone() }
    }
}

/// A combination of keys that a first message was seen with.
pub struct BaseKey {
    pub kyber_id: u32,
    pub ec_id: u32,
    pub base_key: Vec<u8>,
}

impl View for BaseKey {
    type V = (u32, u32, Seq<u8>);

    open spec fn view(&self) -> (u32, u32, Seq<u8>) {
        (self.kyber_id, self.ec_id, self.base_key@)
    }
}

/// Whether two runs of bytes are the same.
pub fn same_bytes(a: &Vec<u8>, b: &Vec<u8>) -> (same: bool)
    ensures
        same == (a@ == b@),
{
    if a.len() != b.len() {
        return false;
    }
    let mut i: usize = 0;
    while i < a.len()
        invariant
            a@.len() == b@.len(),
            i <= a@.len(),
            forall|j: int| 0 <= j < i ==> a@[j] == b@[j],
        decreases a@.len() - i,
    {
        if a[i] != b[i] {
            return false;
        }
        i = i + 1;
    }
    assert(a@ =~= b@);
    true
}

/// The same bytes again.
pub fn copy_bytes(bytes: &Vec<u8>) -> (again: Vec<u8>)
    ensures
        again@ == bytes@,
{
    let mut again: Vec<u8> = Vec::new();
    again.extend_from_slice(bytes.as_slice());
    assert(again@ =~= bytes@);
    again
}

impl TableKey for BaseKey {
    fn same(&self, other: &Self) -> (yes: bool) {
        self.kyber_id == other.kyber_id && self.ec_id == other.ec_id && same_bytes(
            &self.base_key,
            &other.base_key,
        )
    }

    fn again(&self) -> (key: Self) {
        BaseKey {
            kyber_id: self.kyber_id,
            ec_id: self.ec_id,
            base_key: copy_bytes(&self.base_key),
        }
    }
}

/// The stores whose records are found by an address.
#[derive(Clone, Copy, Debug, PartialEq, Eq, Structural)]
pub enum AddressStore {
    Identities,
    Sessions,
}

/// The stores whose records are found by a number.
#[derive(Clone, Copy, Debug, PartialEq, Eq, Structural)]
pub enum KeyStore {
    Prekeys,
    SignedPrekeys,
    KyberPrekeys,
}

/// The tables as they are stored: sealed values are sealed.
pub struct Raw {
    pub meta: Map<Seq<char>, Seq<char>>,
    pub contacts: Map<Seq<char>, CachedContactView>,
    pub avatars: Map<Seq<char>, Seq<char>>,
    pub messages: Map<Seq<char>, MessageView>,
    pub identities: Map<Seq<char>, Seq<char>>,
    pub sessions: Map<Seq<char>, Seq<char>>,
    pub prekeys: Map<u32, Seq<char>>,
    pub signed_prekeys: Map<u32, Seq<char>>,
    pub kyber_prekeys: Map<u32, Seq<char>>,
    pub seen: Map<(u32, u32, Seq<u8>), bool>,
}

/// Tables without rows.
pub open spec fn no_rows() -> Raw {
    Raw {
        meta: Map::empty(),
        contacts: Map::empty(),
        avatars: Map::empty(),
        messages: Map::empty(),
        identities: Map::empty(),
        sessions: Map::empty(),
        prekeys: Map::empty(),
        signed_prekeys: Map::empty(),
        kyber_prekeys: Map::empty(),
        seen: Map::empty(),
    }
}

/// One change to the stored tables.
#[allow(inconsistent_fields)]
pub enum DbWrite {
    PutMeta { key: String, value: String },
    DropMeta { key: String },
    PutContact { username: String, row: CachedContact },
    DropContacts,
    PutAvatar { username: String, avatar: String },
    DropAvatar { username: String },
    PutMessage { row: StoredMessage },
    DropMessage { id: String },
    PutRecord { store: AddressStore, address: String, record: String },
    DropRecord { store: AddressStore, address: String },
    PutKey { store: KeyStore, id: u32, record: String },
    DropKey { store: KeyStore, id: u32 },
    PutSeen { base: BaseKey },
    /// Everything goes.
    Clear,
}

/// The stored tables after one change.
pub open spec fn db_applied(raw: Raw, write: DbWrite) -> Raw {
    match write {
        DbWrite::PutMeta { key, value } => Raw { meta: raw.meta.insert(key@, value@), ..raw },
        DbWrite::DropMeta { key } => Raw { meta: raw.meta.remove(key@), ..raw },
        DbWrite::PutContact { username, row } => Raw {
            contacts: raw.contacts.insert(username@, row@),
            ..raw
        },
        DbWrite::DropContacts => Raw { contacts: Map::empty(), ..raw },
        DbWrite::PutAvatar { username, avatar } => Raw {
            avatars: raw.avatars.insert(username@, avatar@),
            ..raw
        },
        DbWrite::DropAvatar { username } => Raw { avatars: raw.avatars.remove(username@), ..raw },
        DbWrite::PutMessage { row } => Raw { messages: raw.messages.insert(row@.id, row@), ..raw },
        DbWrite::DropMessage { id } => Raw { messages: raw.messages.remove(id@), ..raw },
        DbWrite::PutRecord { store, address, record } => match store {
            AddressStore::Identities => Raw {
                identities: raw.identities.insert(address@, record@),
                ..raw
            },
            AddressStore::Sessions => Raw {
                sessions: raw.sessions.insert(address@, record@),
                ..raw
            },
        },
        DbWrite::DropRecord { store, address } => match store {
            AddressStore::Identities => Raw { identities: raw.identities.remove(address@), ..raw },
            AddressStore::Sessions => Raw { sessions: raw.sessions.remove(address@), ..raw },
        },
        DbWrite::PutKey { store, id, record } => match store {
            KeyStore::Prekeys => Raw { prekeys: raw.prekeys.insert(id, record@), ..raw },
            KeyStore::SignedPrekeys => Raw {
                signed_prekeys: raw.signed_prekeys.insert(id, record@),
                ..raw
            },
            KeyStore::KyberPrekeys => Raw {
                kyber_prekeys: raw.kyber_prekeys.insert(id, record@),
                ..raw
            },
        },
        DbWrite::DropKey { store, id } => match store {
            KeyStore::Prekeys => Raw { prekeys: raw.prekeys.remove(id), ..raw },
            KeyStore::SignedPrekeys => Raw {
                signed_prekeys: raw.signed_prekeys.remove(id),
                ..raw
            },
            KeyStore::KyberPrekeys => Raw { kyber_prekeys: raw.kyber_prekeys.remove(id), ..raw },
        },
        DbWrite::PutSeen { base } => Raw { seen: raw.seen.insert(base@, true), ..raw },
        DbWrite::Clear => no_rows(),
    }
}

/// The stored tables after a run of changes.
pub open spec fn db_replayed(base: Raw, journal: Seq<DbWrite>) -> Raw
    decreases journal.len(),
{
    if journal.len() == 0 {
        base
    } else {
        db_applied(db_replayed(base, journal.drop_last()), journal.last())
    }
}

/// A text as it reads, given how it is stored. Anything that fails to open reads
/// as it is, so a half-migrated database still reads.
pub open spec fn unsealed(key: Option<Seq<u8>>, stored: Seq<char>) -> Seq<char> {
    match key {
        None => stored,
        Some(key) => match opened(key, stored) {
            Ok(plain) => utf8_lossy(plain),
            Err(_) => stored,
        },
    }
}

/// The bytes behind a stored record, if it can be read.
pub open spec fn record_behind(key: Option<Seq<u8>>, stored: Seq<char>) -> Option<Seq<u8>> {
    match key {
        None => b64_decoded(stored),
        Some(key) => match opened(key, stored) {
            Ok(plain) => Some(plain),
            Err(_) => None,
        },
    }
}

/// Whether what is stored was sealed with the key, where there is one.
pub open spec fn is_sealed(key: Option<Seq<u8>>, stored: Seq<char>) -> bool {
    match key {
        None => true,
        Some(key) => exists|nonce: Seq<u8>, plain: Seq<u8>|
            nonce.len() == NONCE_LEN && stored == #[trigger] boxed(key, nonce, plain),
    }
}

/// Whether so many bytes can be sealed.
pub open spec fn can_seal(key: Option<Seq<u8>>, bytes: nat) -> bool {
    key is None || bytes <= MAX_SEALED_BYTES
}

/// Whether a value of the account must never be stored in the clear. The marker
/// is left out on purpose: it says that the rest is sealed.
pub open spec fn sealed_meta(key: Seq<char>) -> bool {
    key != "crypto"@
}

/// The values of the account as they read.
pub open spec fn plain_meta(key: Option<Seq<u8>>, meta: Map<Seq<char>, Seq<char>>) -> Map<
    Seq<char>,
    Seq<char>,
> {
    Map::new(
        |k: Seq<char>| meta.contains_key(k),
        |k: Seq<char>|
            if sealed_meta(k) {
                unsealed(key, meta[k])
            } else {
                meta[k]
            },
    )
}

/// A contact as it reads.
pub open spec fn plain_contact(key: Option<Seq<u8>>, c: CachedContactView) -> CachedContactView {
    CachedContactView { alias: unsealed(key, c.alias), ..c }
}

/// A message as it reads.
pub open spec fn plain_message(key: Option<Seq<u8>>, m: MessageView) -> MessageView {
    MessageView { text: unsealed(key, m.text), ..m }
}

/// The cached contacts as they read.
pub open spec fn plain_contacts(
    key: Option<Seq<u8>>,
    contacts: Map<Seq<char>, CachedContactView>,
) -> Map<Seq<char>, CachedContactView> {
    Map::new(
        |k: Seq<char>| contacts.contains_key(k),
        |k: Seq<char>| plain_contact(key, contacts[k]),
    )
}

/// Some texts as they read.
pub open spec fn plain_texts(key: Option<Seq<u8>>, rows: Map<Seq<char>, Seq<char>>) -> Map<
    Seq<char>,
    Seq<char>,
> {
    Map::new(|k: Seq<char>| rows.contains_key(k), |k: Seq<char>| unsealed(key, rows[k]))
}

/// The messages as they read.
pub open spec fn plain_messages(key: Option<Seq<u8>>, messages: Map<Seq<char>, MessageView>) -> Map<
    Seq<char>,
    MessageView,
> {
    Map::new(
        |k: Seq<char>| messages.contains_key(k),
        |k: Seq<char>| plain_message(key, messages[k]),
    )
}

/// The records of a store as they read.
pub open spec fn plain_records<K>(key: Option<Seq<u8>>, rows: Map<K, Seq<char>>) -> Map<
    K,
    Option<Seq<u8>>,
> {
    Map::new(|k: K| rows.contains_key(k), |k: K| record_behind(key, rows[k]))
}

/// The local database as it reads.
pub struct DbView {
    pub meta: Map<Seq<char>, Seq<char>>,
    pub contacts: Map<Seq<char>, CachedContactView>,
    pub avatars: Map<Seq<char>, Seq<char>>,
    pub messages: Map<Seq<char>, MessageView>,
    pub identities: Map<Seq<char>, Option<Seq<u8>>>,
    pub sessions: Map<Seq<char>, Option<Seq<u8>>>,
    pub prekeys: Map<u32, Option<Seq<u8>>>,
    pub signed_prekeys: Map<u32, Option<Seq<u8>>>,
    pub kyber_prekeys: Map<u32, Option<Seq<u8>>>,
    pub seen: Map<(u32, u32, Seq<u8>), bool>,
}

/// How stored tables read.
pub open spec fn as_read(key: Option<Seq<u8>>, raw: Raw) -> DbView {
    DbView {
        meta: plain_meta(key, raw.meta),
        contacts: plain_contacts(key, raw.contacts),
        avatars: plain_texts(key, raw.avatars),
        messages: plain_messages(key, raw.messages),
        identities: plain_records(key, raw.identities),
        sessions: plain_records(key, raw.sessions),
        prekeys: plain_records(key, raw.prekeys),
        signed_prekeys: plain_records(key, raw.signed_prekeys),
        kyber_prekeys: plain_records(key, raw.kyber_prekeys),
        seen: raw.seen,
    }
}

/// The local database.
pub struct LocalDb {
    /// Seals message text, contact names, stored keys and tokens. Absent only
    /// while nothing was sealed yet.
    pub key: Option<DeviceKey>,
    pub meta: Table<String, String>,
    pub contacts: Table<String, CachedContact>,
    pub avatars: Table<String, String>,
    pub messages: Table<String, StoredMessage>,
    pub identities: Table<String, String>,
    pub sessions: Table<String, String>,
    pub prekeys: Table<u32, String>,
    pub signed_prekeys: Table<u32, String>,
    pub kyber_prekeys: Table<u32, String>,
    pub seen: Table<BaseKey, bool>,
    /// What was written since the journal was last taken.
    pub journal: Vec<DbWrite>,
    /// The tables as they were when the journal was last taken.
    pub base: Ghost<Raw>,
}

impl View for LocalDb {
    type V = DbView;

    open spec fn view(&self) -> DbView {
        as_read(self.secret(), self.raw())
    }
}

/// Whether every message is stored under its own identifier.
pub open spec fn ids_sound(messages: Map<Seq<char>, MessageView>) -> bool {
    forall|id: Seq<char>| #[trigger] messages.contains_key(id) ==> messages[id].id == id
}

impl LocalDb {
    /// The key that values are sealed with.
    pub open spec fn secret(&self) -> Option<Seq<u8>> {
        match self.key {
            Some(key) => Some(key.0@),
            None => None,
        }
    }

    /// The tables as they are stored.
    pub open spec fn raw(&self) -> Raw {
        Raw {
            meta: self.meta@,
            contacts: self.contacts@,
            avatars: self.avatars@,
            messages: self.messages@,
            identities: self.identities@,
            sessions: self.sessions@,
            prekeys: self.prekeys@,
            signed_prekeys: self.signed_prekeys@,
            kyber_prekeys: self.kyber_prekeys@,
            seen: self.seen@,
        }
    }

    /// What always holds of the database: its tables are in order, and the
    /// journal tells what became of them since it was last taken.
    pub open spec fn wf(&self) -> bool {
        &&& self.meta.wf()
        &&& self.contacts.wf()
        &&& self.avatars.wf()
        &&& self.messages.wf()
        &&& self.identities.wf()
        &&& self.sessions.wf()
        &&& self.prekeys.wf()
        &&& self.signed_prekeys.wf()
        &&& self.kyber_prekeys.wf()
        &&& self.seen.wf()
        &&& ids_sound(self.messages@)
        &&& self.raw() == db_replayed(self.base@, self.journal@)
    }

    /// A database without rows, and without encryption.
    pub fn open_in_memory() -> (db: LocalDb)
        ensures
            db.wf(),
            db.key is None,
            db.raw() == no_rows(),
            db.journal@.len() == 0,
    {
        LocalDb {
            key: None,
            meta: Table::new(),
            contacts: Table::new(),
            avatars: Table::new(),
            messages: Table::new(),
            identities: Table::new(),
            sessions: Table::new(),
            prekeys: Table::new(),
            signed_prekeys: Table::new(),
            kyber_prekeys: Table::new(),
            seen: Table::new(),
            journal: Vec::new(),
            base: Ghost(no_rows()),
        }
    }

    /// Makes one change, and notes it in the journal.
    pub(crate) fn write(&mut self, write: DbWrite)
        requires
            old(self).wf(),
        ensures
            final(self).wf(),
            final(self).key == old(self).key,
            final(self).raw() == db_applied(old(self).raw(), write),
            final(self).journal@ == old(self).journal@.push(write),
            final(self).base == old(self).base,
    {
        match &write {
            DbWrite::PutMeta { key, value } => {
                self.meta.put(key.clone(), value.clone());
            },
            DbWrite::DropMeta { key } => {
                self.meta.remove(key);
            },
            DbWrite::PutContact { username, row } => {
                self.contacts.put(username.clone(), row.copy());
            },
            DbWrite::DropContacts => {
                self.contacts = Table::new();
            },
            DbWrite::PutAvatar { username, avatar } => {
                self.avatars.put(username.clone(), avatar.clone());
            },
            DbWrite::DropAvatar { username } => {
                self.avatars.remove(username);
            },
            DbWrite::PutMessage { row } => {
                self.messages.put(row.id.clone(), row.copy());
            },
            DbWrite::DropMessage { id } => {
                self.messages.remove(id);
            },
            DbWrite::PutRecord { store, address, record } => match store {
                AddressStore::Identities => {
                    self.identities.put(address.clone(), record.clone());
                },
                AddressStore::Sessions => {
                    self.sessions.put(address.clone(), record.clone());
                },
            },
            DbWrite::DropRecord { store, address } => match store {
                AddressStore::Identities => {
                    self.identities.remove(address);
                },
                AddressStore::Sessions => {
                    self.sessions.remove(address);
                },
            },
            DbWrite::PutKey { store, id, record } => match store {
                KeyStore::Prekeys => {
                    self.prekeys.put(*id, record.clone());
                },
                KeyStore::SignedPrekeys => {
                    self.signed_prekeys.put(*id, record.clone());
                },
                KeyStore::KyberPrekeys => {
                    self.kyber_prekeys.put(*id, record.clone());
                },
            },
            DbWrite::DropKey { store, id } => match store {
                KeyStore::Prekeys => {
                    self.prekeys.remove(id);
                },
                KeyStore::SignedPrekeys => {
                    self.signed_prekeys.remove(id);
                },
                KeyStore::KyberPrekeys => {
                    self.kyber_prekeys.remove(id);
                },
            },
            DbWrite::PutSeen { base } => {
                self.seen.put(base.again(), true);
            },
            DbWrite::Clear => {
                self.meta = Table::new();
                self.contacts = Table::new();
                self.avatars = Table::new();
                self.messages = Table::new();
                self.identities = Table::new();
                self.sessions = Table::new();
                self.prekeys = Table::new();
                self.signed_prekeys = Table::new();
                self.kyber_prekeys = Table::new();
                self.seen = Table::new();
            },
        }
        let ghost before = self.journal@;
        self.journal.push(write);
        proof {
            assert(self.journal@.drop_last() =~= before);
            assert(self.journal@.last() == write);
        }
    }

    /// Hands out what was written since the last time.
    pub fn take_writes(&mut self) -> (writes: Vec<DbWrite>)
        requires
            old(self).wf(),
        ensures
            final(self).wf(),
            final(self).key == old(self).key,
            final(self).raw() == old(self).raw(),
            writes@ == old(self).journal@,
            final(self).journal@.len() == 0,
            final(self).base@ == old(self).raw(),
            db_replayed(old(self).base@, writes@) == final(self).raw(),
    {
        let mut writes: Vec<DbWrite> = Vec::new();
        writes.append(&mut self.journal);
        self.base = Ghost(self.raw());
        assert(writes@ =~= old(self).journal@);
        writes
    }

    /// Encrypts a value for storage, or passes it through when this database has
    /// no device key.
    pub(crate) fn seal(&self, plaintext: &str) -> (stored: Result<String, StorageError>)
        ensures
            !can_seal(self.secret(), encode_utf8(plaintext@).len()) ==> stored == Err::<
                String,
                StorageError,
            >(StorageError::TooLong),
            can_seal(self.secret(), encode_utf8(plaintext@).len()) ==> stored is Ok && unsealed(
                self.secret(),
                stored->Ok_0@,
            ) == plaintext@ && is_sealed(self.secret(), stored->Ok_0@),
    {
        match &self.key {
            Some(key) => key.seal_str(plaintext),
            None => Ok(plaintext.to_string()),
        }
    }

    /// Encrypts a record for storage.
    pub(crate) fn seal_bytes(&self, plaintext: &Vec<u8>) -> (stored: Result<String, StorageError>)
        ensures
            !can_seal(self.secret(), plaintext@.len()) ==> stored == Err::<String, StorageError>(
                StorageError::TooLong,
            ),
            can_seal(self.secret(), plaintext@.len()) ==> stored is Ok && record_behind(
                self.secret(),
                stored->Ok_0@,
            ) == Some(plaintext@) && is_sealed(self.secret(), stored->Ok_0@),
    {
        match &self.key {
            Some(key) => key.seal(plaintext.as_slice()),
            None => Ok(b64_encode(plaintext.as_slice())),
        }
    }

    /// Decrypts a stored value. Anything that fails to open is returned as it is,
    /// so a half-migrated database still reads.
    pub(crate) fn unseal(&self, stored: &str) -> (text: String)
        ensures
            text@ == unsealed(self.secret(), stored@),
    {
        match &self.key {
            Some(key) => match key.open_str(stored) {
                Ok(text) => text,
                Err(_) => stored.to_string(),
            },
            None => stored.to_string(),
        }
    }

    /// Decrypts a stored record.
    pub(crate) fn open_bytes(&self, stored: &str) -> (plain: Result<Vec<u8>, StorageError>)
        ensures
            match plain {
                Ok(plain) => record_behind(self.secret(), stored@) == Some(plain@),
                Err(_) => record_behind(self.secret(), stored@) is None,
            },
    {
        match &self.key {
            Some(key) => key.open(stored),
            None => match b64_decode(stored) {
                Some(plain) => Ok(plain),
                None => Err(StorageError::Corrupt),
            },
        }
    }
}

} // verus!
