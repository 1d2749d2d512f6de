//! Opening the database, and sealing what was written before storage was
//! encrypted.
#[allow(unused_imports)]
use vstd::utf8::encode_utf8;
use vstd::prelude::*;

use crate::codec::b64_decode;
#[allow(unused_imports)]
use crate::codec::b64_decoded;
#[allow(unused_imports)]
use crate::db::{
    as_read, db_replayed, ids_sound, is_sealed, no_rows, plain_contacts, plain_messages, plain_meta,
    plain_records, plain_texts, record_behind, sealed_meta, unsealed, CachedContactView, DbView,
    MessageView, Raw,
};
use crate::db::{
    AddressStore, CachedContact, DbWrite, KeyStore, LocalDb, StoredMessage,
};
use crate::keystore::{DeviceKey, StorageError};
#[allow(unused_imports)]
use crate::sealing::MAX_SEALED_BYTES;
#[allow(unused_imports)]
use crate::table::without_where;
use crate::table::{RowTest, Table, TableKey};
use crate::text::same_text;

verus! {

/// A row that can be sealed.
pub trait SealRow: View + Sized {
    /// Whether a row can be sealed.
    spec fn fits(row: Self::V) -> bool;

    /// Whether a row is another one, sealed.
    spec fn is_seal_of(key: Seq<u8>, stored: Self::V, row: Self::V) -> bool;

    /// Seals a row.
    fn seal_row(&self, key: &DeviceKey) -> (stored: Result<Self, StorageError>)
        ensures
            stored is Ok == Self::fits(self@),
            stored matches Ok(stored) ==> Self::is_seal_of(key.0@, stored@, self@),
    ;
}

/// Whether a text can be sealed.
pub open spec fn text_fits(text: Seq<char>) -> bool {
    encode_utf8(text).len() <= MAX_SEALED_BYTES
}

/// Whether a stored text is another one, sealed.
pub open spec fn text_sealed(key: Seq<u8>, stored: Seq<char>, text: Seq<char>) -> bool {
    unsealed(Some(key), stored) == text && is_sealed(Some(key), stored)
}

/// Whether a record that was stored in the clear can be sealed.
pub open spec fn record_fits(stored: Seq<char>) -> bool {
    b64_decoded(stored) is Some && b64_decoded(stored)->0.len() <= MAX_SEALED_BYTES
}

/// Whether a stored record is another one, sealed.
pub open spec fn record_sealed(key: Seq<u8>, stored: Seq<char>, clear: Seq<char>) -> bool {
    record_behind(Some(key), stored) == b64_decoded(clear) && is_sealed(Some(key), stored)
}

impl SealRow for String {
    open spec fn fits(row: Seq<char>) -> bool {
        text_fits(row)
    }

    open spec fn is_seal_of(key: Seq<u8>, stored: Seq<char>, row: Seq<char>) -> bool {
        text_sealed(key, stored, row)
    }

    fn seal_row(&self, key: &DeviceKey) -> (stored: Result<Self, StorageError>) {
        key.seal_str(self)
    }
}

impl SealRow for CachedContact {
    open spec fn fits(row: CachedContactView) -> bool {
        text_fits(row.alias)
    }

    open spec fn is_seal_of(key: Seq<u8>, stored: CachedContactView, row: CachedContactView) -> bool {
        text_sealed(key, stored.alias, row.alias) && stored.state == row.state
    }

    fn seal_row(&self, key: &DeviceKey) -> (stored: Result<Self, StorageError>) {
        match key.seal_str(&self.alias) {
            Ok(alias) => Ok(CachedContact { alias, state: self.state.clone() }),
            Err(e) => Err(e),
        }
    }
}

impl SealRow for StoredMessage {
    open spec fn fits(row: MessageView) -> bool {
        text_fits(row.text)
    }

    open spec fn is_seal_of(key: Seq<u8>, stored: MessageView, row: MessageView) -> bool {
        text_sealed(key, stored.text, row.text) && stored == (MessageView {
            text: stored.text,
            ..row
        })
    }

    fn seal_row(&self, key: &DeviceKey) -> (stored: Result<Self, StorageError>) {
        match key.seal_str(&self.text) {
            Ok(text) => {
                let mut stored = self.copy();
                stored.text = text;
                Ok(stored)
            },
            Err(e) => Err(e),
        }
    }
}

/// Whether every row of a table can be sealed.
pub open spec fn rows_fit<K, V: SealRow>(rows: Map<K, V::V>) -> bool {
    forall|k: K| #[trigger] rows.contains_key(k) ==> V::fits(rows[k])
}

/// Whether a table is another one, sealed.
pub open spec fn rows_sealed<K, V: SealRow>(key: Seq<u8>, stored: Map<K, V::V>, rows: Map<K, V::V>) -> bool {
    &&& stored.dom() == rows.dom()
    &&& forall|k: K| #[trigger] rows.contains_key(k) ==> V::is_seal_of(key, stored[k], rows[k])
}

/// Whether every record of a table can be sealed.
pub open spec fn records_fit<K>(rows: Map<K, Seq<char>>) -> bool {
    forall|k: K| #[trigger] rows.contains_key(k) ==> record_fits(rows[k])
}

/// Whether a table of records is another one, sealed.
pub open spec fn records_sealed<K>(key: Seq<u8>, stored: Map<K, Seq<char>>, rows: Map<K, Seq<char>>) -> bool {
    &&& stored.dom() == rows.dom()
    &&& forall|k: K| #[trigger] rows.contains_key(k) ==> record_sealed(key, stored[k], rows[k])
}

/// Seals every row of a table.
fn seal_rows<K: TableKey, V: SealRow>(table: &Table<K, V>, key: &DeviceKey) -> (sealed: Result<
    Table<K, V>,
    StorageError,
>)
    requires
        table.wf(),
    ensures
        sealed is Ok == rows_fit::<K::V, V>(table@),
        sealed matches Ok(sealed) ==> sealed.wf() && rows_sealed::<K::V, V>(
            key.0@,
            sealed@,
            table@,
        ),
{
    proof {
        table.lemma_rows_are_the_map();
    }
    let mut sealed: Table<K, V> = Table::new();
    let mut i: usize = 0;
    while i < table.rows.len()
        invariant
            table.wf(),
            sealed.wf(),
            i <= table.rows@.len(),
            forall|j: int|
                0 <= j < table.rows@.len() ==> table@.contains_key((#[trigger] table.rows@[j]).0@)
                    && table@[table.rows@[j].0@] == table.rows@[j].1@,
            forall|k: K::V| #[trigger]
                sealed@.contains_key(k) ==> exists|j: int|
                    0 <= j < i && (#[trigger] table.rows@[j]).0@ == k,
            forall|j: int|
                0 <= j < i ==> {
                    let row = #[trigger] table.rows@[j];
                    sealed@.contains_key(row.0@) && V::is_seal_of(key.0@, sealed@[row.0@], row.1@)
                        && V::fits(row.1@)
                },
        decreases table.rows@.len() - i,
    {
        let row = &table.rows[i];
        match row.1.seal_row(key) {
            Ok(stored) => {
                let ghost was = sealed@;
                sealed.put(row.0.again(), stored);
                proof {
                    assert forall|j: int| 0 <= j < i + 1 implies {
                        let row = #[trigger] table.rows@[j];
                        sealed@.contains_key(row.0@) && V::is_seal_of(
                            key.0@,
                            sealed@[row.0@],
                            row.1@,
                        ) && V::fits(row.1@)
                    } by {
                        if j < i {
                            assert(table.entries()[j].0 != table.entries()[i as int].0);
                        }
                    }
                    assert forall|k: K::V| #[trigger] sealed@.contains_key(k) implies exists|j: int|
                        0 <= j < i + 1 && (#[trigger] table.rows@[j]).0@ == k by {
                        if was.contains_key(k) {
                            let j = choose|j: int| 0 <= j < i && (#[trigger] table.rows@[j]).0@ == k;
                            assert(table.rows@[j].0@ == k);
                        } else {
                            assert(table.rows@[i as int].0@ == k);
                        }
                    }
                }
            },
            Err(e) => {
                assert(table@.contains_key(table.rows@[i as int].0@));
                return Err(e);
            },
        }
        i = i + 1;
    }
    proof {
        table.lemma_rows_are_the_map();
        assert forall|k: K::V| #[trigger] table@.contains_key(k) implies sealed@.contains_key(k)
            && V::is_seal_of(key.0@, sealed@[k], table@[k]) && V::fits(table@[k]) by {
            let j = choose|j: int| 0 <= j < table.rows@.len() && (#[trigger] table.rows@[j]).0@ == k;
            assert(table@[k] == table.rows@[j].1@);
        }
        assert(sealed@.dom() =~= table@.dom());
    }
    Ok(sealed)
}

/// Seals every record of a table.
fn seal_records<K: TableKey>(table: &Table<K, String>, key: &DeviceKey) -> (sealed: Result<
    Table<K, String>,
    StorageError,
>)
    requires
        table.wf(),
    ensures
        sealed is Ok == records_fit(table@),
        sealed matches Ok(sealed) ==> sealed.wf() && records_sealed(key.0@, sealed@, table@),
{
    proof {
        table.lemma_rows_are_the_map();
    }
    let mut sealed: Table<K, String> = Table::new();
    let mut i: usize = 0;
    while i < table.rows.len()
        invariant
            table.wf(),
            sealed.wf(),
            i <= table.rows@.len(),
            forall|j: int|
                0 <= j < table.rows@.len() ==> table@.contains_key((#[trigger] table.rows@[j]).0@)
                    && table@[table.rows@[j].0@] == table.rows@[j].1@,
            forall|k: K::V| #[trigger]
                sealed@.contains_key(k) ==> exists|j: int|
                    0 <= j < i && (#[trigger] table.rows@[j]).0@ == k,
            forall|j: int|
                0 <= j < i ==> {
                    let row = #[trigger] table.rows@[j];
                    sealed@.contains_key(row.0@) && record_sealed(
                        key.0@,
                        sealed@[row.0@],
                        row.1@,
                    ) && record_fits(row.1@)
                },
        decreases table.rows@.len() - i,
    {
        let row = &table.rows[i];
        assert(table@.contains_key(table.rows@[i as int].0@));
        let bytes = match b64_decode(&row.1) {
            Some(bytes) => bytes,
            None => {
                return Err(StorageError::Corrupt);
            },
        };
        match key.seal(bytes.as_slice()) {
            Ok(stored) => {
                let ghost was = sealed@;
                sealed.put(row.0.again(), stored);
                proof {
                    assert forall|j: int| 0 <= j < i + 1 implies {
                        let row = #[trigger] table.rows@[j];
                        sealed@.contains_key(row.0@) && record_sealed(
                            key.0@,
                            sealed@[row.0@],
                            row.1@,
                        ) && record_fits(row.1@)
                    } by {
                        if j < i {
                            assert(table.entries()[j].0 != table.entries()[i as int].0);
                        }
                    }
                    assert forall|k: K::V| #[trigger] sealed@.contains_key(k) implies exists|j: int|
                        0 <= j < i + 1 && (#[trigger] table.rows@[j]).0@ == k by {
                        if was.contains_key(k) {
                            let j = choose|j: int| 0 <= j < i && (#[trigger] table.rows@[j]).0@ == k;
                            assert(table.rows@[j].0@ == k);
                        } else {
                            assert(table.rows@[i as int].0@ == k);
                        }
                    }
                }
            },
            Err(e) => {
                return Err(e);
            },
        }
        i = i + 1;
    }
    proof {
        table.lemma_rows_are_the_map();
        assert forall|k: K::V| #[trigger] table@.contains_key(k) implies sealed@.contains_key(k)
            && record_sealed(key.0@, sealed@[k], table@[k]) && record_fits(table@[k]) by {
            let j = choose|j: int| 0 <= j < table.rows@.len() && (#[trigger] table.rows@[j]).0@ == k;
            assert(table@[k] == table.rows@[j].1@);
        }
        assert(sealed@.dom() =~= table@.dom());
    }
    Ok(sealed)
}

/// Whether every record of a table can be read.
pub open spec fn records_readable<K>(rows: Map<K, Seq<char>>) -> bool {
    forall|k: K| #[trigger] rows.contains_key(k) ==> b64_decoded(rows[k]) is Some
}

/// Whether every record of a table can be read.
fn can_read_records<K: TableKey>(table: &Table<K, String>) -> (yes: bool)
    requires
        table.wf(),
    ensures
        yes == records_readable(table@),
{
    proof {
        table.lemma_rows_are_the_map();
    }
    let mut i: usize = 0;
    while i < table.rows.len()
        invariant
            i <= table.rows@.len(),
            forall|j: int|
                0 <= j < table.rows@.len() ==> table@.contains_key((#[trigger] table.rows@[j]).0@)
                    && table@[table.rows@[j].0@] == table.rows@[j].1@,
            forall|j: int|
                0 <= j < i ==> b64_decoded((#[trigger] table.rows@[j]).1@) is Some,
        decreases table.rows@.len() - i,
    {
        if b64_decode(&table.rows[i].1).is_none() {
            assert(table@.contains_key(table.rows@[i as int].0@));
            return false;
        }
        i = i + 1;
    }
    proof {
        table.lemma_rows_are_the_map();
        assert forall|k: K::V| #[trigger] table@.contains_key(k) implies b64_decoded(
            table@[k],
        ) is Some by {
            let j = choose|j: int| 0 <= j < table.rows@.len() && (#[trigger] table.rows@[j]).0@ == k;
            assert(table@[k] == table.rows@[j].1@);
        }
    }
    true
}

/// Whether every record that is stored in the clear can be read.
pub open spec fn all_readable(raw: Raw) -> bool {
    &&& records_readable(raw.identities)
    &&& records_readable(raw.sessions)
    &&& records_readable(raw.prekeys)
    &&& records_readable(raw.signed_prekeys)
    &&& records_readable(raw.kyber_prekeys)
}

/// Why tables that cannot be sealed cannot be sealed: a record that cannot be read
/// comes before anything that is too long.
pub open spec fn sealing_fault(raw: Raw) -> StorageError {
    if all_readable(raw) {
        StorageError::TooLong
    } else {
        StorageError::Corrupt
    }
}

/// Whether everything that is stored in the clear can be sealed.
pub open spec fn all_fits(raw: Raw) -> bool {
    &&& rows_fit::<Seq<char>, String>(raw.meta)
    &&& rows_fit::<Seq<char>, CachedContact>(raw.contacts)
    &&& rows_fit::<Seq<char>, String>(raw.avatars)
    &&& rows_fit::<Seq<char>, StoredMessage>(raw.messages)
    &&& records_fit(raw.identities)
    &&& records_fit(raw.sessions)
    &&& records_fit(raw.prekeys)
    &&& records_fit(raw.signed_prekeys)
    &&& records_fit(raw.kyber_prekeys)
}

/// Whether nothing but the marker is stored in the clear.
pub open spec fn all_sealed(key: Option<Seq<u8>>, raw: Raw) -> bool {
    &&& forall|k: Seq<char>| #[trigger]
        raw.meta.contains_key(k) && sealed_meta(k) ==> is_sealed(key, raw.meta[k])
    &&& forall|k: Seq<char>| #[trigger]
        raw.contacts.contains_key(k) ==> is_sealed(key, raw.contacts[k].alias)
    &&& forall|k: Seq<char>| #[trigger]
        raw.avatars.contains_key(k) ==> is_sealed(key, raw.avatars[k])
    &&& forall|k: Seq<char>| #[trigger]
        raw.messages.contains_key(k) ==> is_sealed(key, raw.messages[k].text)
    &&& forall|k: Seq<char>| #[trigger]
        raw.identities.contains_key(k) ==> is_sealed(key, raw.identities[k])
    &&& forall|k: Seq<char>| #[trigger]
        raw.sessions.contains_key(k) ==> is_sealed(key, raw.sessions[k])
    &&& forall|k: u32| #[trigger] raw.prekeys.contains_key(k) ==> is_sealed(key, raw.prekeys[k])
    &&& forall|k: u32| #[trigger]
        raw.signed_prekeys.contains_key(k) ==> is_sealed(key, raw.signed_prekeys[k])
    &&& forall|k: u32| #[trigger]
        raw.kyber_prekeys.contains_key(k) ==> is_sealed(key, raw.kyber_prekeys[k])
}

/// The database with the marker that says that the rest is sealed.
pub open spec fn marked(db: DbView) -> DbView {
    DbView { meta: db.meta.insert("crypto"@, "v1"@), ..db }
}

/// Singles out what earlier versions stored for the instruction to delete a
/// message.
struct OldDelete;

impl RowTest<String, StoredMessage> for OldDelete {
    closed spec fn holds(&self, key: Seq<char>, row: MessageView) -> bool {
        row.kind == "delete"@
    }

    fn test(&self, key: &String, row: &StoredMessage) -> (yes: bool) {
        same_text(&row.kind, "delete")
    }
}

/// The stored tables without the instructions to delete a message, which earlier
/// versions stored as messages.
pub open spec fn without_old_deletes(raw: Raw) -> Raw {
    Raw {
        messages: without_where(
            raw.messages,
            |id: Seq<char>, m: MessageView| m.kind == "delete"@,
        ),
        ..raw
    }
}

/// A database that was opened, and the key to store where it had none.
pub struct OpenedDb {
    pub db: LocalDb,
    pub new_key: Option<DeviceKey>,
}

impl LocalDb {
    /// One-off migration of a database written before storage was encrypted.
    /// Without it the old plaintext rows would simply stay readable. It happens
    /// as a whole or not at all: a partially sealed database would be unreadable.
    /// Nothing happens where the marker says that it was done before.
    pub fn encrypt_existing_rows(&mut self, key: &DeviceKey) -> (done: Result<(), StorageError>)
        requires
            old(self).wf(),
        ensures
            final(self).wf(),
            done is Ok == (old(self).raw().meta.contains_key("crypto"@) || all_fits(
                old(self).raw(),
            )),
            done matches Err(e) ==> e == sealing_fault(old(self).raw()),
            old(self).raw().meta.contains_key("crypto"@) || done is Err ==> {
                &&& final(self).key == old(self).key
                &&& final(self).raw() == old(self).raw()
                &&& final(self).journal@ == old(self).journal@
            },
            !old(self).raw().meta.contains_key("crypto"@) && done is Ok ==> {
                &&& final(self).secret() == Some(key.0@)
                &&& final(self)@ == marked(as_read(None, old(self).raw()))
                &&& all_sealed(final(self).secret(), final(self).raw())
            },
    {
        let marker = "crypto".to_string();
        if self.meta.has(&marker) {
            return Ok(());
        }
        let ghost before = self.raw();
        let readable = can_read_records(&self.identities) && can_read_records(&self.sessions)
            && can_read_records(&self.prekeys) && can_read_records(&self.signed_prekeys)
            && can_read_records(&self.kyber_prekeys);
        if !readable {
            return Err(StorageError::Corrupt);
        }
        let meta = match seal_rows(&self.meta, key) {
            Ok(table) => table,
            Err(_) => {
                return Err(StorageError::TooLong);
            },
        };
        let contacts = match seal_rows(&self.contacts, key) {
            Ok(table) => table,
            Err(_) => {
                return Err(StorageError::TooLong);
            },
        };
        let avatars = match seal_rows(&self.avatars, key) {
            Ok(table) => table,
            Err(_) => {
                return Err(StorageError::TooLong);
            },
        };
        let messages = match seal_rows(&self.messages, key) {
            Ok(table) => table,
            Err(_) => {
                return Err(StorageError::TooLong);
            },
        };
        let identities = match seal_records(&self.identities, key) {
            Ok(table) => table,
            Err(_) => {
                return Err(StorageError::TooLong);
            },
        };
        let sessions = match seal_records(&self.sessions, key) {
            Ok(table) => table,
            Err(_) => {
                return Err(StorageError::TooLong);
            },
        };
        let prekeys = match seal_records(&self.prekeys, key) {
            Ok(table) => table,
            Err(_) => {
                return Err(StorageError::TooLong);
            },
        };
        let signed_prekeys = match seal_records(&self.signed_prekeys, key) {
            Ok(table) => table,
            Err(_) => {
                return Err(StorageError::TooLong);
            },
        };
        let kyber_prekeys = match seal_records(&self.kyber_prekeys, key) {
            Ok(table) => table,
            Err(_) => {
                return Err(StorageError::TooLong);
            },
        };
        let ghost sealed = Raw {
            meta: meta@,
            contacts: contacts@,
            avatars: avatars@,
            messages: messages@,
            identities: identities@,
            sessions: sessions@,
            prekeys: prekeys@,
            signed_prekeys: signed_prekeys@,
            kyber_prekeys: kyber_prekeys@,
            seen: before.seen,
        };
        self.key = Some(key.copy());
        self.write_text_rows(&meta, &contacts, &avatars, &messages);
        self.write_address_rows(AddressStore::Identities, &identities);
        self.write_address_rows(AddressStore::Sessions, &sessions);
        self.write_key_rows(KeyStore::Prekeys, &prekeys);
        self.write_key_rows(KeyStore::SignedPrekeys, &signed_prekeys);
        self.write_key_rows(KeyStore::KyberPrekeys, &kyber_prekeys);
        proof {
            let now = self.raw();
            assert(now.meta =~= sealed.meta);
            assert(now.contacts =~= sealed.contacts);
            assert(now.avatars =~= sealed.avatars);
            assert(now.messages =~= sealed.messages);
            assert(now.identities =~= sealed.identities);
            assert(now.sessions =~= sealed.sessions);
            assert(now.prekeys =~= sealed.prekeys);
            assert(now.signed_prekeys =~= sealed.signed_prekeys);
            assert(now.kyber_prekeys =~= sealed.kyber_prekeys);
        }
        self.write(DbWrite::PutMeta { key: "crypto".to_string(), value: "v1".to_string() });
        proof {
            let k = Some(key.0@);
            let now = self.raw();
            let clear = as_read(None, before);
            assert(plain_meta(k, now.meta) =~= clear.meta.insert("crypto"@, "v1"@));
            assert(plain_contacts(k, now.contacts) =~= clear.contacts);
            assert(plain_texts(k, now.avatars) =~= clear.avatars);
            assert(plain_messages(k, now.messages) =~= clear.messages);
            assert(plain_records(k, now.identities) =~= clear.identities);
            assert(plain_records(k, now.sessions) =~= clear.sessions);
            assert(plain_records(k, now.prekeys) =~= clear.prekeys);
            assert(plain_records(k, now.signed_prekeys) =~= clear.signed_prekeys);
            assert(plain_records(k, now.kyber_prekeys) =~= clear.kyber_prekeys);
        }
        Ok(())
    }

    /// Writes the rows of some tables over those that are there.
    fn write_text_rows(
        &mut self,
        meta: &Table<String, String>,
        contacts: &Table<String, CachedContact>,
        avatars: &Table<String, String>,
        messages: &Table<String, StoredMessage>,
    )
        requires
            old(self).wf(),
            meta.wf(),
            contacts.wf(),
            avatars.wf(),
            messages.wf(),
            ids_sound(messages@),
        ensures
            final(self).wf(),
            final(self).key == old(self).key,
            final(self).raw() == (Raw {
                meta: old(self).raw().meta.union_prefer_right(meta@),
                contacts: old(self).raw().contacts.union_prefer_right(contacts@),
                avatars: old(self).raw().avatars.union_prefer_right(avatars@),
                messages: old(self).raw().messages.union_prefer_right(messages@),
                ..old(self).raw()
            }),
    {
        let ghost start = self.raw();
        proof {
            meta.lemma_rows_are_the_map();
            contacts.lemma_rows_are_the_map();
            avatars.lemma_rows_are_the_map();
            messages.lemma_rows_are_the_map();
        }
        let mut i: usize = 0;
        assert(overlaid(start.meta, meta.entries().take(0)) =~= start.meta);
        while i < meta.rows.len()
            invariant
                self.wf(),
                self.key == old(self).key,
                i <= meta.rows@.len(),
                self.raw() == (Raw {
                    meta: overlaid(start.meta, meta.entries().take(i as int)),
                    ..start
                }),
            decreases meta.rows@.len() - i,
        {
            proof {
                lemma_one_more(start.meta, meta.entries(), i as int);
            }
            self.write(
                DbWrite::PutMeta { key: meta.rows[i].0.clone(), value: meta.rows[i].1.clone() },
            );
            i = i + 1;
        }
        proof {
            lemma_overlaid(start.meta, meta.entries());
            assert(meta.entries().take(meta.entries().len() as int) =~= meta.entries());
        }
        let ghost second = self.raw();
        let mut i: usize = 0;
        assert(overlaid(start.contacts, contacts.entries().take(0)) =~= start.contacts);
        while i < contacts.rows.len()
            invariant
                self.wf(),
                self.key == old(self).key,
                i <= contacts.rows@.len(),
                self.raw() == (Raw {
                    contacts: overlaid(start.contacts, contacts.entries().take(i as int)),
                    ..second
                }),
            decreases contacts.rows@.len() - i,
        {
            proof {
                lemma_one_more(start.contacts, contacts.entries(), i as int);
            }
            self.write(
                DbWrite::PutContact {
                    username: contacts.rows[i].0.clone(),
                    row: contacts.rows[i].1.copy(),
                },
            );
            i = i + 1;
        }
        proof {
            lemma_overlaid(start.contacts, contacts.entries());
            assert(contacts.entries().take(contacts.entries().len() as int) =~= contacts.entries());
        }
        let ghost third = self.raw();
        let mut i: usize = 0;
        assert(overlaid(start.avatars, avatars.entries().take(0)) =~= start.avatars);
        while i < avatars.rows.len()
            invariant
                self.wf(),
                self.key == old(self).key,
                i <= avatars.rows@.len(),
                self.raw() == (Raw {
                    avatars: overlaid(start.avatars, avatars.entries().take(i as int)),
                    ..third
                }),
            decreases avatars.rows@.len() - i,
        {
            proof {
                lemma_one_more(start.avatars, avatars.entries(), i as int);
            }
            self.write(
                DbWrite::PutAvatar {
                    username: avatars.rows[i].0.clone(),
                    avatar: avatars.rows[i].1.clone(),
                },
            );
            i = i + 1;
        }
        proof {
            lemma_overlaid(start.avatars, avatars.entries());
            assert(avatars.entries().take(avatars.entries().len() as int) =~= avatars.entries());
        }
        let ghost fourth = self.raw();
        let mut i: usize = 0;
        assert(overlaid(start.messages, messages.entries().take(0)) =~= start.messages);
        while i < messages.rows.len()
            invariant
                self.wf(),
                self.key == old(self).key,
                ids_sound(messages@),
                forall|j: int|
                    0 <= j < messages.rows@.len() ==> messages@.contains_key(
                        (#[trigger] messages.rows@[j]).0@,
                    ) && messages@[messages.rows@[j].0@] == messages.rows@[j].1@,
                i <= messages.rows@.len(),
                self.raw() == (Raw {
                    messages: overlaid(start.messages, messages.entries().take(i as int)),
                    ..fourth
                }),
            decreases messages.rows@.len() - i,
        {
            proof {
                lemma_one_more(start.messages, messages.entries(), i as int);
                assert(messages@.contains_key(messages.rows@[i as int].0@));
            }
            self.write(DbWrite::PutMessage { row: messages.rows[i].1.copy() });
            i = i + 1;
        }
        proof {
            lemma_overlaid(start.messages, messages.entries());
            assert(messages.entries().take(messages.entries().len() as int) =~= messages.entries());
        }
    }

    /// Writes the rows of a table of records over those that are there.
    fn write_address_rows(&mut self, store: AddressStore, table: &Table<String, String>)
        requires
            old(self).wf(),
            table.wf(),
        ensures
            final(self).wf(),
            final(self).key == old(self).key,
            final(self).raw() == (match store {
                AddressStore::Identities => Raw {
                    identities: old(self).raw().identities.union_prefer_right(table@),
                    ..old(self).raw()
                },
                AddressStore::Sessions => Raw {
                    sessions: old(self).raw().sessions.union_prefer_right(table@),
                    ..old(self).raw()
                },
            }),
    {
        let ghost start = self.raw();
        let mut i: usize = 0;
        proof {
            assert(overlaid(start.identities, table.entries().take(0)) =~= start.identities);
            assert(overlaid(start.sessions, table.entries().take(0)) =~= start.sessions);
        }
        while i < table.rows.len()
            invariant
                self.wf(),
                self.key == old(self).key,
                i <= table.rows@.len(),
                self.raw() == (match store {
                    AddressStore::Identities => Raw {
                        identities: overlaid(start.identities, table.entries().take(i as int)),
                        ..start
                    },
                    AddressStore::Sessions => Raw {
                        sessions: overlaid(start.sessions, table.entries().take(i as int)),
                        ..start
                    },
                }),
            decreases table.rows@.len() - i,
        {
            proof {
                lemma_one_more(start.identities, table.entries(), i as int);
                lemma_one_more(start.sessions, table.entries(), i as int);
            }
            self.write(
                DbWrite::PutRecord {
                    store,
                    address: table.rows[i].0.clone(),
                    record: table.rows[i].1.clone(),
                },
            );
            i = i + 1;
        }
        proof {
            lemma_overlaid(start.identities, table.entries());
            lemma_overlaid(start.sessions, table.entries());
            assert(table.entries().take(table.entries().len() as int) =~= table.entries());
        }
    }

    /// Writes the rows of a table of keys over those that are there.
    fn write_key_rows(&mut self, store: KeyStore, table: &Table<u32, String>)
        requires
            old(self).wf(),
            table.wf(),
        ensures
            final(self).wf(),
            final(self).key == old(self).key,
            final(self).raw() == (match store {
                KeyStore::Prekeys => Raw {
                    prekeys: old(self).raw().prekeys.union_prefer_right(table@),
                    ..old(self).raw()
                },
                KeyStore::SignedPrekeys => Raw {
                    signed_prekeys: old(self).raw().signed_prekeys.union_prefer_right(table@),
                    ..old(self).raw()
                },
                KeyStore::KyberPrekeys => Raw {
                    kyber_prekeys: old(self).raw().kyber_prekeys.union_prefer_right(table@),
                    ..old(self).raw()
                },
            }),
    {
        let ghost start = self.raw();
        let mut i: usize = 0;
        proof {
            assert(overlaid(start.prekeys, table.entries().take(0)) =~= start.prekeys);
            assert(overlaid(start.signed_prekeys, table.entries().take(0))
                =~= start.signed_prekeys);
            assert(overlaid(start.kyber_prekeys, table.entries().take(0)) =~= start.kyber_prekeys);
        }
        while i < table.rows.len()
            invariant
                self.wf(),
                self.key == old(self).key,
                i <= table.rows@.len(),
                self.raw() == (match store {
                    KeyStore::Prekeys => Raw {
                        prekeys: overlaid(start.prekeys, table.entries().take(i as int)),
                        ..start
                    },
                    KeyStore::SignedPrekeys => Raw {
                        signed_prekeys: overlaid(
                            start.signed_prekeys,
                            table.entries().take(i as int),
                        ),
                        ..start
                    },
                    KeyStore::KyberPrekeys => Raw {
                        kyber_prekeys: overlaid(
                            start.kyber_prekeys,
                            table.entries().take(i as int),
                        ),
                        ..start
                    },
                }),
            decreases table.rows@.len() - i,
        {
            proof {
                lemma_one_more(start.prekeys, table.entries(), i as int);
                lemma_one_more(start.signed_prekeys, table.entries(), i as int);
                lemma_one_more(start.kyber_prekeys, table.entries(), i as int);
            }
            self.write(
                DbWrite::PutKey { store, id: table.rows[i].0, record: table.rows[i].1.clone() },
            );
            i = i + 1;
        }
        proof {
            lemma_overlaid(start.prekeys, table.entries());
            lemma_overlaid(start.signed_prekeys, table.entries());
            lemma_overlaid(start.kyber_prekeys, table.entries());
            assert(table.entries().take(table.entries().len() as int) =~= table.entries());
        }
    }
}

impl LocalDb {
    /// Puts rows that were loaded into the tables.
    fn load(rows: Vec<DbWrite>) -> (db: LocalDb)
        ensures
            db.wf(),
            db.key is None,
            db.raw() == db_replayed(no_rows(), rows@),
            db.journal@.len() == 0,
    {
        let mut db = LocalDb::open_in_memory();
        let ghost all = rows@;
        let mut rest = rows;
        let mut turned: Vec<DbWrite> = Vec::new();
        // The rows are taken from the back, so they are turned round first.
        while rest.len() > 0
            invariant
                turned@.len() + rest@.len() == all.len(),
                rest@ == all.take(rest@.len() as int),
                forall|j: int| 0 <= j < turned@.len() ==> turned@[j] == all[all.len() - 1 - j],
            decreases rest@.len(),
        {
            let ghost n = rest@.len();
            match rest.pop() {
                Some(row) => {
                    assert(row == all[n - 1]);
                    turned.push(row);
                },
                None => {},
            }
            assert(rest@ =~= all.take(rest@.len() as int));
        }
        let ghost mut n: int = 0;
        assert(all.take(0) =~= Seq::<DbWrite>::empty());
        while turned.len() > 0
            invariant
                all == rows@,
                0 <= n <= all.len(),
                n + turned@.len() == all.len(),
                forall|j: int| 0 <= j < turned@.len() ==> turned@[j] == all[all.len() - 1 - j],
                db.wf(),
                db.key is None,
                db.raw() == db_replayed(no_rows(), all.take(n)),
            decreases turned@.len(),
        {
            match turned.pop() {
                Some(row) => {
                    assert(row == all[n]);
                    db.write(row);
                    proof {
                        assert(all.take(n + 1).drop_last() =~= all.take(n));
                        assert(all.take(n + 1).last() == row);
                        n = n + 1;
                    }
                },
                None => {},
            }
        }
        assert(all.take(n) =~= all);
        let _written = db.take_writes();
        db
    }

    /// Earlier versions stored the "delete for everyone" instruction as a message,
    /// so conversations showed a line with the identifier of the message that had
    /// just been deleted.
    fn drop_old_deletes(&mut self)
        requires
            old(self).wf(),
        ensures
            final(self).wf(),
            final(self).key == old(self).key,
            final(self).raw() == without_old_deletes(old(self).raw()),
    {
        let ghost before = self.raw();
        let question = OldDelete;
        let places = self.messages.find_where(&question);
        let mut ids: Vec<String> = Vec::new();
        let mut i: usize = 0;
        while i < places.len()
            invariant
                forall|j: int|
                    0 <= j < places@.len() ==> (#[trigger] places@[j]) < self.messages.rows@.len(),
                i <= places@.len(),
                ids@.len() == i,
                forall|j: int|
                    0 <= j < i ==> (#[trigger] ids@[j])@
                        == self.messages.rows@[places@[j] as int].0@,
            decreases places@.len() - i,
        {
            ids.push(self.messages.rows[places[i]].0.clone());
            i = i + 1;
        }
        proof {
            assert forall|j: int| 0 <= j < ids@.len() implies before.messages.contains_key(
                (#[trigger] ids@[j])@,
            ) && before.messages[ids@[j]@].kind == "delete"@ by {
                let row = self.messages.rows@[places@[j] as int];
                assert(question.holds(row.0@, row.1@));
            }
            assert forall|id: Seq<char>| #[trigger]
                before.messages.contains_key(id) && before.messages[id].kind
                    == "delete"@ implies exists|j: int|
                0 <= j < ids@.len() && (#[trigger] ids@[j])@ == id by {
                assert(question.holds(id, self.messages@[id]));
                let p = choose|p: int|
                    0 <= p < places@.len() && self.messages.rows@[(
                    #[trigger] places@[p]) as int].0@ == id;
                assert(ids@[p]@ == id);
            }
        }
        let mut k: usize = 0;
        while k < ids.len()
            invariant
                self.wf(),
                self.key == old(self).key,
                before == old(self).raw(),
                k <= ids@.len(),
                self.raw() == (Raw { messages: self.raw().messages, ..before }),
                forall|j: int|
                    0 <= j < ids@.len() ==> before.messages.contains_key((#[trigger] ids@[j])@)
                        && before.messages[ids@[j]@].kind == "delete"@,
                forall|id: Seq<char>| #[trigger]
                    self.raw().messages.contains_key(id) <==> before.messages.contains_key(id)
                        && !(exists|j: int| 0 <= j < k && (#[trigger] ids@[j])@ == id),
                forall|id: Seq<char>| #[trigger]
                    self.raw().messages.contains_key(id) ==> self.raw().messages[id]
                        == before.messages[id],
            decreases ids@.len() - k,
        {
            let ghost was = self.raw();
            let id = ids[k].clone();
            self.write(DbWrite::DropMessage { id });
            proof {
                assert forall|other: Seq<char>| #[trigger]
                    self.raw().messages.contains_key(other) <==> before.messages.contains_key(other)
                        && !(exists|j: int| 0 <= j < k + 1 && (#[trigger] ids@[j])@ == other) by {
                    if was.messages.contains_key(other) && other != ids@[k as int]@ {
                        if exists|j: int| 0 <= j < k + 1 && (#[trigger] ids@[j])@ == other {
                            let j = choose|j: int|
                                0 <= j < k + 1 && (#[trigger] ids@[j])@ == other;
                            assert(j < k);
                        }
                    }
                    if other == ids@[k as int]@ {
                        assert(ids@[k as int]@ == other);
                    }
                    if exists|j: int| 0 <= j < k && (#[trigger] ids@[j])@ == other {
                        let j = choose|j: int| 0 <= j < k && (#[trigger] ids@[j])@ == other;
                        assert(ids@[j]@ == other);
                    }
                }
            }
            k = k + 1;
        }
        assert(self.raw().messages =~= without_old_deletes(before).messages);
    }

    /// Opens the database from the rows that were loaded and the key file beside
    /// it, if there is one. An encrypted database whose key file is gone would
    /// otherwise get a brand new key and read back as garbage, so that is said.
    pub fn open(rows: Vec<DbWrite>, key_file: Option<Vec<u8>>) -> (result: Result<
        OpenedDb,
        StorageError,
    >)
        ensures
            ({
                let raw = without_old_deletes(db_replayed(no_rows(), rows@));
                let sealed = raw.meta.contains_key("crypto"@);
                if sealed && key_file is None {
                    result matches Err(e) && e == StorageError::KeyMissing
                } else if key_file is Some && key_file->0@.len() != 32 {
                    result matches Err(e) && e == StorageError::CorruptKey
                } else if sealed {
                    &&& result is Ok
                    &&& result->Ok_0.db.wf()
                    &&& result->Ok_0.db.raw() == raw
                    &&& result->Ok_0.db.secret() == Some(key_file->0@)
                    &&& result->Ok_0.new_key is None
                } else if all_fits(raw) {
                    let db = result->Ok_0.db;
                    &&& result is Ok
                    &&& db.wf()
                    &&& db.secret() is Some
                    &&& db@ == marked(as_read(None, raw))
                    &&& all_sealed(db.secret(), db.raw())
                    &&& match key_file {
                        Some(bytes) => db.secret() == Some(bytes@) && result->Ok_0.new_key is None,
                        None => result->Ok_0.new_key is Some && db.secret() == Some(
                            (result->Ok_0.new_key->0).0@,
                        ),
                    }
                } else {
                    result matches Err(e) && e == sealing_fault(raw)
                }
            }),
    {
        let mut db = LocalDb::load(rows);
        db.drop_old_deletes();
        let marker = "crypto".to_string();
        let sealed = db.meta.has(&marker);
        let (key, created) = match &key_file {
            Some(bytes) => match DeviceKey::from_file(bytes) {
                Ok(key) => (key, false),
                Err(e) => {
                    return Err(e);
                },
            },
            None => {
                if sealed {
                    return Err(StorageError::KeyMissing);
                }
                (DeviceKey::create(), true)
            },
        };
        if sealed {
            db.key = Some(key);
            return Ok(OpenedDb { db, new_key: None });
        }
        match db.encrypt_existing_rows(&key) {
            Ok(_) => {},
            Err(e) => {
                return Err(e);
            },
        }
        let new_key = if created {
            Some(key)
        } else {
            None
        };
        Ok(OpenedDb { db, new_key })
    }
}

/// A map with some entries written over it, one after another.
pub open spec fn overlaid<K, V>(map: Map<K, V>, entries: Seq<(K, V)>) -> Map<K, V>
    decreases entries.len(),
{
    if entries.len() == 0 {
        map
    } else {
        overlaid(map, entries.drop_last()).insert(entries.last().0, entries.last().1)
    }
}

proof fn lemma_one_more<K, V>(map: Map<K, V>, entries: Seq<(K, V)>, i: int)
    requires
        0 <= i < entries.len(),
    ensures
        overlaid(map, entries.take(i + 1)) == overlaid(map, entries.take(i)).insert(
            entries[i].0,
            entries[i].1,
        ),
{
    assert(entries.take(i + 1).drop_last() =~= entries.take(i));
    assert(entries.take(i + 1).last() == entries[i]);
}

proof fn lemma_overlaid<K, V>(map: Map<K, V>, entries: Seq<(K, V)>)
    ensures
        overlaid(map, entries) == map.union_prefer_right(crate::table::as_map(entries)),
    decreases entries.len(),
{
    if entries.len() > 0 {
        lemma_overlaid(map, entries.drop_last());
    }
    assert(overlaid(map, entries) =~= map.union_prefer_right(crate::table::as_map(entries)));
}

} // verus!
