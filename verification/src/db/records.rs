//! The stores of the encryption protocol, so identity, sessions and ratchet state
//! survive restarts. Their records are opaque here.
#[allow(unused_imports)]
use vstd::utf8::encode_utf8;
use vstd::prelude::*;

#[allow(unused_imports)]
use crate::codec::{b64_decoded, b64_encoded};
use crate::codec::{b64_decode, b64_encode};
#[allow(unused_imports)]
use crate::db::meta::{lemma_profile_keys, with_meta};
use crate::db::{copy_bytes, same_bytes, AddressStore, BaseKey, DbWrite, KeyStore, LocalDb};
#[allow(unused_imports)]
use crate::db::{can_seal, is_sealed, DbView, Raw};
use crate::keystore::StorageError;
use crate::random::random_below;
use crate::table::Table;
#[allow(unused_imports)]
use crate::text::{decimal, number_in, written_numbers_read_back};
use crate::text::{join3, parse_u64, write_decimal};

verus! {

/// The number of a device as the protocol has it: a byte that starts at one, so
/// anything else counts as the first device.
pub open spec fn device_number(device: u32) -> u32 {
    if 1 <= device <= 255 {
        device
    } else {
        1
    }
}

/// The number of a device as the protocol has it.
pub fn device_byte(device: u32) -> (n: u8)
    ensures
        n == device_number(device),
        n >= 1,
{
    if 1 <= device && device <= 255 {
        device as u8
    } else {
        1
    }
}

/// The address of a device of an account.
pub open spec fn address_of(name: Seq<char>, device: u32) -> Seq<char> {
    name + ":"@ + decimal(device as nat)
}

/// The address of a device of an account.
pub fn addr_key(name: &str, device: u32) -> (address: String)
    ensures
        address@ == address_of(name@, device),
{
    join3(name, ":", &write_decimal(device as u64))
}

/// Whether a key was there before, and another one.
#[derive(Clone, Copy, Debug, PartialEq, Eq, Structural)]
pub enum IdentityChange {
    NewOrUnchanged,
    ReplacedExisting,
}

/// The records of a store by address.
pub open spec fn by_address(db: DbView, store: AddressStore) -> Map<Seq<char>, Option<Seq<u8>>> {
    match store {
        AddressStore::Identities => db.identities,
        AddressStore::Sessions => db.sessions,
    }
}

/// The database with other records by address.
pub open spec fn with_addresses(
    db: DbView,
    store: AddressStore,
    records: Map<Seq<char>, Option<Seq<u8>>>,
) -> DbView {
    match store {
        AddressStore::Identities => DbView { identities: records, ..db },
        AddressStore::Sessions => DbView { sessions: records, ..db },
    }
}

/// The records of a store by number.
pub open spec fn by_number(db: DbView, store: KeyStore) -> Map<u32, Option<Seq<u8>>> {
    match store {
        KeyStore::Prekeys => db.prekeys,
        KeyStore::SignedPrekeys => db.signed_prekeys,
        KeyStore::KyberPrekeys => db.kyber_prekeys,
    }
}

/// The database with other records by number.
pub open spec fn with_numbers(
    db: DbView,
    store: KeyStore,
    records: Map<u32, Option<Seq<u8>>>,
) -> DbView {
    match store {
        KeyStore::Prekeys => DbView { prekeys: records, ..db },
        KeyStore::SignedPrekeys => DbView { signed_prekeys: records, ..db },
        KeyStore::KyberPrekeys => DbView { kyber_prekeys: records, ..db },
    }
}

/// Whether a number is the highest of a store; zero for a store without records.
pub open spec fn is_highest(records: Map<u32, Option<Seq<u8>>>, n: u32) -> bool {
    &&& forall|id: u32| #[trigger] records.contains_key(id) ==> id <= n
    &&& records.contains_key(n) || (n == 0 && forall|id: u32| !records.contains_key(id))
}

/// The stored records by address.
pub open spec fn raw_by_address(raw: Raw, store: AddressStore) -> Map<Seq<char>, Seq<char>> {
    match store {
        AddressStore::Identities => raw.identities,
        AddressStore::Sessions => raw.sessions,
    }
}

/// The stored records by number.
pub open spec fn raw_by_number(raw: Raw, store: KeyStore) -> Map<u32, Seq<char>> {
    match store {
        KeyStore::Prekeys => raw.prekeys,
        KeyStore::SignedPrekeys => raw.signed_prekeys,
        KeyStore::KyberPrekeys => raw.kyber_prekeys,
    }
}

/// The highest number of a table; zero for a table without rows.
fn highest(table: &Table<u32, String>) -> (n: u32)
    requires
        table.wf(),
    ensures
        forall|id: u32| #[trigger] table@.contains_key(id) ==> id <= n,
        table@.contains_key(n) || (n == 0 && forall|id: u32| !table@.contains_key(id)),
{
    proof {
        table.lemma_rows_are_the_map();
    }
    let mut n: u32 = 0;
    let mut i: usize = 0;
    while i < table.rows.len()
        invariant
            table.wf(),
            i <= table.rows@.len(),
            forall|j: int|
                0 <= j < table.rows@.len() ==> table@.contains_key((#[trigger] table.rows@[j]).0@),
            forall|j: int| 0 <= j < i ==> (#[trigger] table.rows@[j]).0 <= n,
            table@.contains_key(n) || (n == 0 && i == 0),
        decreases table.rows@.len() - i,
    {
        let id: u32 = table.rows[i].0;
        assert(table@.contains_key(table.rows@[i as int].0@));
        if i == 0 || id > n {
            n = id;
        }
        i = i + 1;
    }
    proof {
        assert forall|id: u32| #[trigger] table@.contains_key(id) implies id <= n by {
            let j = choose|j: int| 0 <= j < table.rows@.len() && (#[trigger] table.rows@[j]).0@ == id;
        }
    }
    n
}

impl LocalDb {
    /// The record at an address, where there is one.
    pub fn load_record(&self, store: AddressStore, address: &str) -> (record: Result<
        Option<Vec<u8>>,
        StorageError,
    >)
        requires
            self.wf(),
        ensures
            match record {
                Ok(Some(bytes)) => by_address(self@, store).contains_key(address@) && by_address(
                    self@,
                    store,
                )[address@] == Some(bytes@),
                Ok(None) => !by_address(self@, store).contains_key(address@),
                Err(_) => by_address(self@, store).contains_key(address@) && by_address(
                    self@,
                    store,
                )[address@] is None,
            },
    {
        let name = address.to_string();
        let stored = match store {
            AddressStore::Identities => self.identities.get(&name),
            AddressStore::Sessions => self.sessions.get(&name),
        };
        match stored {
            Some(stored) => match self.open_bytes(stored) {
                Ok(bytes) => Ok(Some(bytes)),
                Err(e) => Err(e),
            },
            None => Ok(None),
        }
    }

    /// Keeps the record at an address.
    pub fn store_record(&mut self, store: AddressStore, address: &str, record: &Vec<u8>) -> (done:
        Result<(), StorageError>)
        requires
            old(self).wf(),
        ensures
            final(self).wf(),
            final(self).key == old(self).key,
            done is Ok == can_seal(old(self).secret(), record@.len()),
            done is Ok ==> final(self)@ == with_addresses(
                old(self)@,
                store,
                by_address(old(self)@, store).insert(address@, Some(record@)),
            ) && is_sealed(
                final(self).secret(),
                raw_by_address(final(self).raw(), store)[address@],
            ),
            done matches Err(e) ==> e == StorageError::TooLong && final(self).raw() == old(self).raw(),
    {
        let stored = match self.seal_bytes(record) {
            Ok(stored) => stored,
            Err(e) => {
                return Err(e);
            },
        };
        let ghost before = self@;
        let ghost raw = self.raw();
        self.write(DbWrite::PutRecord { store, address: address.to_string(), record: stored });
        assert(by_address(self@, store) =~= by_address(before, store).insert(
            address@,
            Some(record@),
        ));
        Ok(())
    }

    /// Forgets the record at an address.
    pub fn drop_record(&mut self, store: AddressStore, address: &str)
        requires
            old(self).wf(),
        ensures
            final(self).wf(),
            final(self).key == old(self).key,
            final(self)@ == with_addresses(
                old(self)@,
                store,
                by_address(old(self)@, store).remove(address@),
            ),
    {
        let ghost before = self@;
        self.write(DbWrite::DropRecord { store, address: address.to_string() });
        assert(by_address(self@, store) =~= by_address(before, store).remove(address@));
    }

    /// The record of a key, where there is one.
    pub fn load_key(&self, store: KeyStore, id: u32) -> (record: Result<
        Option<Vec<u8>>,
        StorageError,
    >)
        requires
            self.wf(),
        ensures
            match record {
                Ok(Some(bytes)) => by_number(self@, store).contains_key(id) && by_number(
                    self@,
                    store,
                )[id] == Some(bytes@),
                Ok(None) => !by_number(self@, store).contains_key(id),
                Err(_) => by_number(self@, store).contains_key(id) && by_number(
                    self@,
                    store,
                )[id] is None,
            },
    {
        let stored = match store {
            KeyStore::Prekeys => self.prekeys.get(&id),
            KeyStore::SignedPrekeys => self.signed_prekeys.get(&id),
            KeyStore::KyberPrekeys => self.kyber_prekeys.get(&id),
        };
        match stored {
            Some(stored) => match self.open_bytes(stored) {
                Ok(bytes) => Ok(Some(bytes)),
                Err(e) => Err(e),
            },
            None => Ok(None),
        }
    }

    /// Keeps the record of a key.
    pub fn save_key(&mut self, store: KeyStore, id: u32, record: &Vec<u8>) -> (done: Result<
        (),
        StorageError,
    >)
        requires
            old(self).wf(),
        ensures
            final(self).wf(),
            final(self).key == old(self).key,
            done is Ok == can_seal(old(self).secret(), record@.len()),
            done is Ok ==> final(self)@ == with_numbers(
                old(self)@,
                store,
                by_number(old(self)@, store).insert(id, Some(record@)),
            ) && is_sealed(final(self).secret(), raw_by_number(final(self).raw(), store)[id]),
            done matches Err(e) ==> e == StorageError::TooLong && final(self).raw() == old(self).raw(),
    {
        let stored = match self.seal_bytes(record) {
            Ok(stored) => stored,
            Err(e) => {
                return Err(e);
            },
        };
        let ghost before = self@;
        self.write(DbWrite::PutKey { store, id, record: stored });
        assert(by_number(self@, store) =~= by_number(before, store).insert(id, Some(record@)));
        Ok(())
    }

    /// Forgets a key.
    pub fn remove_key(&mut self, store: KeyStore, id: u32)
        requires
            old(self).wf(),
        ensures
            final(self).wf(),
            final(self).key == old(self).key,
            final(self)@ == with_numbers(
                old(self)@,
                store,
                by_number(old(self)@, store).remove(id),
            ),
    {
        let ghost before = self@;
        self.write(DbWrite::DropKey { store, id });
        assert(by_number(self@, store) =~= by_number(before, store).remove(id));
    }

    /// The highest number of a store; zero for a store without records.
    pub fn highest_of(&self, store: KeyStore) -> (n: u32)
        requires
            self.wf(),
        ensures
            is_highest(by_number(self@, store), n),
    {
        let n: u32 = match store {
            KeyStore::Prekeys => highest(&self.prekeys),
            KeyStore::SignedPrekeys => highest(&self.signed_prekeys),
            KeyStore::KyberPrekeys => highest(&self.kyber_prekeys),
        };
        assert(is_highest(by_number(self@, store), n)) by {
            let raw = raw_by_number(self.raw(), store);
            let read = by_number(self@, store);
            assert forall|id: u32| #[trigger] read.contains_key(id) == raw.contains_key(id) by {}
        }
        n
    }

    /// Next free number of a store (numbers grow, and start over behind the
    /// highest there is).
    pub fn next_id(&self, store: KeyStore) -> (id: u32)
        requires
            self.wf(),
        ensures
            exists|n: u32| #[trigger]
                is_highest(by_number(self@, store), n) && id == (if n == u32::MAX {
                    0
                } else {
                    (n + 1) as u32
                }),
    {
        let n: u32 = self.highest_of(store);
        if n == u32::MAX {
            0
        } else {
            n + 1
        }
    }

    /// Notes the keys that a first message came with. Seeing the same combination
    /// twice means that the message was replayed.
    pub fn mark_kyber_used(&mut self, kyber_id: u32, ec_id: u32, base_key: &Vec<u8>) -> (fresh:
        bool)
        requires
            old(self).wf(),
        ensures
            final(self).wf(),
            final(self).key == old(self).key,
            fresh == !old(self)@.seen.contains_key((kyber_id, ec_id, base_key@)),
            final(self)@.seen.contains_key((kyber_id, ec_id, base_key@)),
            final(self)@ == (if fresh {
                DbView {
                    seen: old(self)@.seen.insert((kyber_id, ec_id, base_key@), true),
                    ..old(self)@
                }
            } else {
                old(self)@
            }),
    {
        let base = BaseKey { kyber_id, ec_id, base_key: copy_bytes(base_key) };
        if self.seen.has(&base) {
            return false;
        }
        self.write(DbWrite::PutSeen { base });
        true
    }

    /// The identity that is pinned for a device.
    pub fn get_identity(&self, address: &str) -> (identity: Result<Option<Vec<u8>>, StorageError>)
        requires
            self.wf(),
        ensures
            match identity {
                Ok(Some(bytes)) => self@.identities.contains_key(address@)
                    && self@.identities[address@] == Some(bytes@),
                Ok(None) => !self@.identities.contains_key(address@),
                Err(_) => self@.identities.contains_key(address@)
                    && self@.identities[address@] is None,
            },
    {
        self.load_record(AddressStore::Identities, address)
    }

    /// Pins the identity of a device, and tells whether another one was pinned.
    pub fn save_identity(&mut self, address: &str, identity: &Vec<u8>) -> (change: Result<
        IdentityChange,
        StorageError,
    >)
        requires
            old(self).wf(),
        ensures
            final(self).wf(),
            final(self).key == old(self).key,
            change is Ok == (can_seal(old(self).secret(), identity@.len()) && !(
            old(self)@.identities.contains_key(address@) && old(self)@.identities[address@] is None)),
            change matches Ok(change) ==> {
                &&& final(self)@ == with_addresses(
                    old(self)@,
                    AddressStore::Identities,
                    old(self)@.identities.insert(address@, Some(identity@)),
                )
                &&& change == (if old(self)@.identities.contains_key(address@)
                    && old(self)@.identities[address@] != Some(identity@) {
                    IdentityChange::ReplacedExisting
                } else {
                    IdentityChange::NewOrUnchanged
                })
            },
            change is Err ==> final(self).raw() == old(self).raw(),
    {
        let change = match self.get_identity(address) {
            Err(e) => {
                return Err(e);
            },
            Ok(Some(known)) => if same_bytes(&known, identity) {
                IdentityChange::NewOrUnchanged
            } else {
                IdentityChange::ReplacedExisting
            },
            Ok(None) => IdentityChange::NewOrUnchanged,
        };
        match self.store_record(AddressStore::Identities, address, identity) {
            Ok(_) => Ok(change),
            Err(e) => Err(e),
        }
    }

    /// Whether an identity may be trusted: the first one that a device shows is,
    /// and from then on no other.
    pub fn is_trusted_identity(&self, address: &str, identity: &Vec<u8>) -> (trusted: Result<
        bool,
        StorageError,
    >)
        requires
            self.wf(),
        ensures
            match trusted {
                Ok(yes) => yes == trusts(self@, address@, identity@),
                Err(_) => self@.identities.contains_key(address@)
                    && self@.identities[address@] is None,
            },
    {
        match self.get_identity(address) {
            Ok(None) => Ok(true),
            Ok(Some(known)) => Ok(same_bytes(&known, identity)),
            Err(e) => Err(e),
        }
    }

    /// Throws away the ratchet with a device, so the next message rebuilds it.
    /// The pinned identity deliberately stays: forgetting who the contact is at
    /// the same time would mean that the next bundle the server hands over is
    /// trusted on sight, whoever it belongs to.
    pub fn reset_session(&mut self, remote: &str, device: u32)
        requires
            old(self).wf(),
        ensures
            final(self).wf(),
            final(self).key == old(self).key,
            final(self)@ == session_reset(old(self)@, remote@, device),
    {
        let address = addr_key(remote, device_byte(device) as u32);
        self.drop_record(AddressStore::Sessions, &address);
    }

    /// Un-pins the identity of a device, accepting whatever they publish next.
    /// Only ever called after the person using the app has been shown that the
    /// contact's key changed and has said to go ahead.
    pub fn forget_identity(&mut self, remote: &str, device: u32)
        requires
            old(self).wf(),
        ensures
            final(self).wf(),
            final(self).key == old(self).key,
            final(self)@ == identity_forgotten(old(self)@, remote@, device),
    {
        let address = addr_key(remote, device_byte(device) as u32);
        self.drop_record(AddressStore::Sessions, &address);
        self.drop_record(AddressStore::Identities, &address);
    }

    /// Whether there is a ratchet with a device.
    pub fn has_session(&self, remote: &str, device: u32) -> (yes: bool)
        requires
            self.wf(),
        ensures
            yes == self@.sessions.contains_key(address_of(remote@, device_number(device))),
    {
        let address = addr_key(remote, device_byte(device) as u32);
        self.sessions.has(&address)
    }

    /// The identity key we have on record for a device, if any, in base64.
    pub fn known_identity_b64(&self, remote: &str, device: u32) -> (known: Result<
        Option<String>,
        StorageError,
    >)
        requires
            self.wf(),
        ensures
            match known {
                Ok(Some(text)) => exists|bytes: Seq<u8>|
                    pinned(self@, remote@, device) == Some(Some(bytes)) && text@
                        == #[trigger] b64_encoded(bytes),
                Ok(None) => pinned(self@, remote@, device) is None,
                Err(_) => pinned(self@, remote@, device) == Some(None::<Seq<u8>>),
            },
    {
        let address = addr_key(remote, device_byte(device) as u32);
        match self.get_identity(&address) {
            Ok(Some(bytes)) => {
                let text = b64_encode(bytes.as_slice());
                assert(text@ == b64_encoded(bytes@));
                Ok(Some(text))
            },
            Ok(None) => Ok(None),
            Err(e) => Err(e),
        }
    }

    /// Whether this device has an identity of its own.
    pub fn has_own_identity(&self) -> (yes: bool)
        requires
            self.wf(),
        ensures
            yes == self@.meta.contains_key("identity_keypair"@),
    {
        self.meta_get("identity_keypair").is_some()
    }

    /// Keeps the identity of this device: its key pair, and its registration
    /// number. One that is there already stays.
    pub fn ensure_identity(&mut self, pair: &Vec<u8>, registration_id: u32) -> (done: Result<
        (),
        StorageError,
    >)
        requires
            old(self).wf(),
        ensures
            final(self).wf(),
            final(self).key == old(self).key,
            old(self)@.meta.contains_key("identity_keypair"@) ==> done is Ok && final(self).raw()
                == old(self).raw(),
            !old(self)@.meta.contains_key("identity_keypair"@) && done is Ok ==> final(self)@
                == with_meta(
                old(self)@,
                old(self)@.meta.insert("identity_keypair"@, b64_encoded(pair@)).insert(
                    "registration_id"@,
                    decimal(registration_id as nat),
                ),
            ) && own_identity(final(self)@.meta) == Some(pair@) && own_number(final(self)@.meta)
                == Some(registration_id),
            !old(self)@.meta.contains_key("identity_keypair"@) ==> done is Ok == (can_seal(
                old(self).secret(),
                encode_utf8(b64_encoded(pair@)).len(),
            ) && can_seal(
                old(self).secret(),
                encode_utf8(decimal(registration_id as nat)).len(),
            )),
            done matches Err(e) ==> e == StorageError::TooLong,
    {
        proof {
            lemma_profile_keys();
            lemma_identity_keys();
            written_numbers_read_back(registration_id as int);
        }
        if self.has_own_identity() {
            return Ok(());
        }
        match self.meta_set("identity_keypair", &b64_encode(pair.as_slice())) {
            Ok(_) => {},
            Err(e) => {
                return Err(e);
            },
        }
        self.meta_set("registration_id", &write_decimal(registration_id as u64))
    }

    /// The key pair of this device.
    pub fn load_identity(&self) -> (pair: Option<Vec<u8>>)
        requires
            self.wf(),
        ensures
            match pair {
                Some(pair) => own_identity(self@.meta) == Some(pair@),
                None => own_identity(self@.meta) is None,
            },
    {
        match self.meta_get("identity_keypair") {
            Some(text) => b64_decode(&text),
            None => None,
        }
    }

    /// The registration number of this device.
    pub fn registration_id(&self) -> (id: Option<u32>)
        requires
            self.wf(),
        ensures
            id == own_number(self@.meta),
    {
        match self.meta_get("registration_id") {
            Some(text) => match parse_u64(&text) {
                Some(n) => if n <= 0xffff_ffff {
                    Some(n as u32)
                } else {
                    None
                },
                None => None,
            },
            None => None,
        }
    }
}

/// A fresh registration number.
pub fn fresh_registration_id() -> (id: u32)
    ensures
        1 <= id < 16380,
{
    let n: u32 = random_below(16379);
    n + 1
}

/// Whether an identity is trusted for an address: the first one that shows is, and
/// from then on no other.
pub open spec fn trusts(db: DbView, address: Seq<char>, identity: Seq<u8>) -> bool {
    !db.identities.contains_key(address) || db.identities[address] == Some(identity)
}

/// The identity that is pinned for a device, where one is.
pub open spec fn pinned(db: DbView, remote: Seq<char>, device: u32) -> Option<Option<Seq<u8>>> {
    let address = address_of(remote, device_number(device));
    if db.identities.contains_key(address) {
        Some(db.identities[address])
    } else {
        None
    }
}

/// The database without the ratchet with a device.
pub open spec fn session_reset(db: DbView, remote: Seq<char>, device: u32) -> DbView {
    DbView { sessions: db.sessions.remove(address_of(remote, device_number(device))), ..db }
}

/// The database without the ratchet and the pinned identity of a device.
pub open spec fn identity_forgotten(db: DbView, remote: Seq<char>, device: u32) -> DbView {
    DbView {
        sessions: db.sessions.remove(address_of(remote, device_number(device))),
        identities: db.identities.remove(address_of(remote, device_number(device))),
        ..db
    }
}

/// The key pair of this device, where it is kept and can be read.
pub open spec fn own_identity(meta: Map<Seq<char>, Seq<char>>) -> Option<Seq<u8>> {
    if meta.contains_key("identity_keypair"@) {
        b64_decoded(meta["identity_keypair"@])
    } else {
        None
    }
}

/// The registration number of this device, where it is kept and can be read.
pub open spec fn own_number(meta: Map<Seq<char>, Seq<char>>) -> Option<u32> {
    if meta.contains_key("registration_id"@) {
        match number_in(meta["registration_id"@]) {
            Some(n) if n <= u32::MAX => Some(n as u32),
            _ => None,
        }
    } else {
        None
    }
}

proof fn lemma_identity_keys()
    ensures
        "identity_keypair"@ != "registration_id"@,
{
    reveal_strlit("identity_keypair");
    reveal_strlit("registration_id");
    assert("identity_keypair"@.len() == 16 && "registration_id"@.len() == 15);
}

/// Losing a ratchet never un-pins anybody: what is trusted stays what it was,
/// for every address.
pub proof fn resetting_a_session_keeps_every_pin(
    db: DbView,
    remote: Seq<char>,
    device: u32,
    address: Seq<char>,
    identity: Seq<u8>,
)
    ensures
        session_reset(db, remote, device).identities == db.identities,
        trusts(session_reset(db, remote, device), address, identity) == trusts(
            db,
            address,
            identity,
        ),
{
}

/// A pinned identity is the only one trusted, until the user forgets it; and
/// forgetting one leaves every other pin alone.
pub proof fn only_forgetting_unpins(
    db: DbView,
    remote: Seq<char>,
    device: u32,
    pin: Seq<u8>,
    other: Seq<u8>,
    address: Seq<char>,
)
    requires
        pinned(db, remote, device) == Some(Some(pin)),
        other != pin,
    ensures
        trusts(db, address_of(remote, device_number(device)), pin),
        !trusts(db, address_of(remote, device_number(device)), other),
        trusts(
            identity_forgotten(db, remote, device),
            address_of(remote, device_number(device)),
            other,
        ),
        address != address_of(remote, device_number(device)) ==> trusts(
            identity_forgotten(db, remote, device),
            address,
            other,
        ) == trusts(db, address, other),
{
}

} // verus!
