//! The account on this device.
#[allow(unused_imports)]
use vstd::utf8::encode_utf8;
use vstd::prelude::*;

use crate::db::{DbWrite, LocalDb};
#[allow(unused_imports)]
use crate::db::{as_read, can_seal, is_sealed, no_rows, plain_meta, sealed_meta, DbView, Raw};
use crate::keystore::StorageError;
#[allow(unused_imports)]
use crate::text::{integer_in, signed_decimal, text_in, written_numbers_read_back};
use crate::text::{parse_i64, same_text, write_signed};

verus! {

/// The locally saved account profile.
pub struct Profile {
    pub username: String,
    pub alias: String,
    pub server: String,
    pub token: String,
}

/// A profile as a plain value.
pub struct ProfileView {
    pub username: Seq<char>,
    pub alias: Seq<char>,
    pub server: Seq<char>,
    pub token: Seq<char>,
}

impl View for Profile {
    type V = ProfileView;

    open spec fn view(&self) -> ProfileView {
        ProfileView {
            username: self.username@,
            alias: self.alias@,
            server: self.server@,
            token: self.token@,
        }
    }
}

/// The value of a key, where there is one.
pub open spec fn value_of(meta: Map<Seq<char>, Seq<char>>, key: Seq<char>) -> Option<Seq<char>> {
    if meta.contains_key(key) {
        Some(meta[key])
    } else {
        None
    }
}

/// The profile that the values of the account make, where none is missing.
pub open spec fn profile_in(meta: Map<Seq<char>, Seq<char>>) -> Option<ProfileView> {
    if meta.contains_key("username"@) && meta.contains_key("alias"@) && meta.contains_key("server"@)
        && meta.contains_key("token"@) {
        Some(
            ProfileView {
                username: meta["username"@],
                alias: meta["alias"@],
                server: meta["server"@],
                token: meta["token"@],
            },
        )
    } else {
        None
    }
}

/// The account that this device belongs to, signed in or not: who, and where.
pub open spec fn account_in(meta: Map<Seq<char>, Seq<char>>) -> Option<(Seq<char>, Seq<char>)> {
    if meta.contains_key("username"@) && meta.contains_key("server"@) {
        Some((meta["username"@], meta["server"@]))
    } else {
        None
    }
}

/// The values of the account with the first `n` fields of a profile written.
pub open spec fn profile_written(meta: Map<Seq<char>, Seq<char>>, p: ProfileView, n: int) -> Map<
    Seq<char>,
    Seq<char>,
> {
    let one = if n > 0 {
        meta.insert("username"@, p.username)
    } else {
        meta
    };
    let two = if n > 1 {
        one.insert("alias"@, p.alias)
    } else {
        one
    };
    let three = if n > 2 {
        two.insert("server"@, p.server)
    } else {
        two
    };
    if n > 3 {
        three.insert("token"@, p.token)
    } else {
        three
    }
}

/// How many fields of a profile can be written before one is too long to be
/// sealed.
pub open spec fn fields_that_fit(key: Option<Seq<u8>>, p: ProfileView) -> int {
    if !can_seal(key, encode_utf8(p.username).len()) {
        0
    } else if !can_seal(key, encode_utf8(p.alias).len()) {
        1
    } else if !can_seal(key, encode_utf8(p.server).len()) {
        2
    } else if !can_seal(key, encode_utf8(p.token).len()) {
        3
    } else {
        4
    }
}

/// The database with other values of the account.
pub open spec fn with_meta(db: DbView, meta: Map<Seq<char>, Seq<char>>) -> DbView {
    DbView { meta, ..db }
}

/// Values that must never be stored in the clear. The marker is excluded on
/// purpose: it says that the rest is sealed.
pub fn is_sealed_meta(key: &str) -> (yes: bool)
    ensures
        yes == sealed_meta(key@),
{
    !same_text(key, "crypto")
}

impl LocalDb {
    /// The value of a key, where there is one.
    pub fn meta_get(&self, key: &str) -> (value: Option<String>)
        requires
            self.wf(),
        ensures
            text_in(value) == value_of(self@.meta, key@),
    {
        let name = key.to_string();
        match self.meta.get(&name) {
            Some(stored) => if is_sealed_meta(key) {
                Some(self.unseal(stored))
            } else {
                Some(stored.clone())
            },
            None => None,
        }
    }

    /// Sets the value of a key.
    pub fn meta_set(&mut self, key: &str, value: &str) -> (done: Result<(), StorageError>)
        requires
            old(self).wf(),
        ensures
            final(self).wf(),
            final(self).key == old(self).key,
            done is Ok == (!sealed_meta(key@) || can_seal(
                old(self).secret(),
                encode_utf8(value@).len(),
            )),
            done is Ok ==> final(self)@ == with_meta(old(self)@, old(self)@.meta.insert(key@, value@))
                && final(self).raw() == (Raw { meta: final(self).raw().meta, ..old(self).raw() })
                && (sealed_meta(key@) ==> is_sealed(
                final(self).secret(),
                final(self).raw().meta[key@],
            )),
            done matches Err(e) ==> e == StorageError::TooLong && final(self).raw() == old(self).raw(),
    {
        let stored = if is_sealed_meta(key) {
            match self.seal(value) {
                Ok(stored) => stored,
                Err(e) => {
                    return Err(e);
                },
            }
        } else {
            value.to_string()
        };
        let ghost before = self.raw();
        let ghost s = stored@;
        self.write(DbWrite::PutMeta { key: key.to_string(), value: stored });
        proof {
            assert(self.raw().meta == before.meta.insert(key@, s));
            assert(plain_meta(self.secret(), self.raw().meta) =~= plain_meta(
                self.secret(),
                before.meta,
            ).insert(key@, value@));
        }
        Ok(())
    }

    /// Forgets the value of a key.
    pub fn meta_delete(&mut self, key: &str)
        requires
            old(self).wf(),
        ensures
            final(self).wf(),
            final(self).key == old(self).key,
            final(self)@ == with_meta(old(self)@, old(self)@.meta.remove(key@)),
    {
        let ghost before = self.raw();
        self.write(DbWrite::DropMeta { key: key.to_string() });
        assert(plain_meta(self.secret(), self.raw().meta) =~= plain_meta(
            self.secret(),
            before.meta,
        ).remove(key@));
    }

    /// The locally saved account, where it is signed in.
    pub fn profile(&self) -> (profile: Option<Profile>)
        requires
            self.wf(),
        ensures
            match profile {
                Some(profile) => profile_in(self@.meta) == Some(profile@),
                None => profile_in(self@.meta) is None,
            },
    {
        match (
            self.meta_get("username"),
            self.meta_get("alias"),
            self.meta_get("server"),
            self.meta_get("token"),
        ) {
            (Some(username), Some(alias), Some(server), Some(token)) => Some(
                Profile { username, alias, server, token },
            ),
            _ => None,
        }
    }

    /// Saves the account. The fields are written one after another.
    pub fn save_profile(&mut self, p: &Profile) -> (done: Result<(), StorageError>)
        requires
            old(self).wf(),
        ensures
            final(self).wf(),
            final(self).key == old(self).key,
            done is Ok == (fields_that_fit(old(self).secret(), p@) == 4),
            done matches Err(e) ==> e == StorageError::TooLong,
            final(self)@ == with_meta(
                old(self)@,
                profile_written(
                    old(self)@.meta,
                    p@,
                    fields_that_fit(old(self).secret(), p@),
                ),
            ),
    {
        proof {
            lemma_profile_keys();
        }
        match self.meta_set("username", &p.username) {
            Ok(_) => {},
            Err(e) => {
                return Err(e);
            },
        }
        match self.meta_set("alias", &p.alias) {
            Ok(_) => {},
            Err(e) => {
                return Err(e);
            },
        }
        match self.meta_set("server", &p.server) {
            Ok(_) => {},
            Err(e) => {
                return Err(e);
            },
        }
        self.meta_set("token", &p.token)
    }

    /// Who this device belongs to and on which server, signed in or not.
    pub fn account(&self) -> (account: Option<(String, String)>)
        requires
            self.wf(),
        ensures
            match account {
                Some(account) => account_in(self@.meta) == Some((account.0@, account.1@)),
                None => account_in(self@.meta) is None,
            },
    {
        match (self.meta_get("username"), self.meta_get("server")) {
            (Some(username), Some(server)) => Some((username, server)),
            _ => None,
        }
    }

    /// Signs out. The conversations stay: the server holds no copy of them.
    pub fn forget_token(&mut self)
        requires
            old(self).wf(),
        ensures
            final(self).wf(),
            final(self).key == old(self).key,
            final(self)@ == with_meta(old(self)@, old(self)@.meta.remove("token"@)),
    {
        self.meta_delete("token");
    }

    /// Wipes everything (switching to a different account on this device). The
    /// marker stays: what is written from here on is sealed all the same.
    pub fn clear_all(&mut self)
        requires
            old(self).wf(),
        ensures
            final(self).wf(),
            final(self).key == old(self).key,
            final(self).raw() == wiped(old(self).raw()),
            final(self)@ == clean_slate(old(self)@),
    {
        let name = "crypto".to_string();
        let marker = match self.meta.get(&name) {
            Some(marker) => Some(marker.clone()),
            None => None,
        };
        let ghost before = self.raw();
        self.write(DbWrite::Clear);
        if let Some(marker) = marker {
            self.write(DbWrite::PutMeta { key: name, value: marker });
        }
        proof {
            lemma_wiped_reads_as_clean(self.secret(), before);
        }
    }

    /// Which of the account's devices this installation is, once the server has
    /// assigned it one.
    pub fn device_id(&self) -> (device: Option<i64>)
        requires
            self.wf(),
        ensures
            device == device_in(self@.meta),
    {
        match self.meta_get("device_id") {
            Some(text) => parse_i64(&text),
            None => None,
        }
    }

    /// Notes which device this installation is.
    pub fn set_device_id(&mut self, device: i64) -> (done: Result<(), StorageError>)
        requires
            old(self).wf(),
        ensures
            final(self).wf(),
            final(self).key == old(self).key,
            done is Ok ==> final(self)@ == with_meta(
                old(self)@,
                old(self)@.meta.insert("device_id"@, signed_decimal(device as int)),
            ) && device_in(final(self)@.meta) == Some(device),
            done is Ok == can_seal(
                old(self).secret(),
                encode_utf8(signed_decimal(device as int)).len(),
            ),
            done matches Err(e) ==> e == StorageError::TooLong && final(self).raw() == old(self).raw(),
    {
        proof {
            lemma_profile_keys();
            written_numbers_read_back(device as int);
        }
        self.meta_set("device_id", &write_signed(device))
    }
}

/// The number of the device, where there is one.
pub open spec fn device_in(meta: Map<Seq<char>, Seq<char>>) -> Option<i64> {
    if meta.contains_key("device_id"@) {
        match integer_in(meta["device_id"@]) {
            Some(n) if i64::MIN <= n <= i64::MAX => Some(n as i64),
            _ => None,
        }
    } else {
        None
    }
}

/// The keys of the account's values are all different, and all of them sealed.
pub proof fn lemma_profile_keys()
    ensures
        sealed_meta("username"@),
        sealed_meta("alias"@),
        sealed_meta("server"@),
        sealed_meta("token"@),
        sealed_meta("device_id"@),
        sealed_meta("status"@),
        sealed_meta("avatar"@),
        sealed_meta("identity_keypair"@),
        sealed_meta("registration_id"@),
        "username"@ != "alias"@,
        "username"@ != "server"@,
        "username"@ != "token"@,
        "alias"@ != "server"@,
        "alias"@ != "token"@,
        "server"@ != "token"@,
        "status"@ != "username"@,
        "status"@ != "alias"@,
        "status"@ != "server"@,
        "status"@ != "token"@,
        "avatar"@ != "username"@,
        "avatar"@ != "alias"@,
        "avatar"@ != "server"@,
        "avatar"@ != "token"@,
{
    reveal_strlit("crypto");
    reveal_strlit("username");
    reveal_strlit("alias");
    reveal_strlit("server");
    reveal_strlit("token");
    reveal_strlit("device_id");
    reveal_strlit("status");
    reveal_strlit("avatar");
    reveal_strlit("identity_keypair");
    reveal_strlit("registration_id");
    assert("crypto"@.len() == 6 && "username"@.len() == 8 && "alias"@.len() == 5 && "server"@.len()
        == 6 && "token"@.len() == 5 && "device_id"@.len() == 9 && "status"@.len() == 6
        && "avatar"@.len() == 6 && "identity_keypair"@.len() == 16 && "registration_id"@.len()
        == 15);
    assert("crypto"@[0] == 'c' && "server"@[0] == 's' && "status"@[0] == 's' && "avatar"@[0] == 'a');
    assert("server"@[1] == 'e' && "status"@[1] == 't');
    assert("alias"@[0] == 'a' && "token"@[0] == 't');
}

/// The tables once everything but the marker was wiped.
pub open spec fn wiped(raw: Raw) -> Raw {
    Raw {
        meta: if raw.meta.contains_key("crypto"@) {
            Map::empty().insert("crypto"@, raw.meta["crypto"@])
        } else {
            Map::empty()
        },
        ..no_rows()
    }
}

/// The database once everything but the marker was wiped, as it reads.
pub open spec fn clean_slate(db: DbView) -> DbView {
    DbView {
        meta: if db.meta.contains_key("crypto"@) {
            Map::empty().insert("crypto"@, db.meta["crypto"@])
        } else {
            Map::empty()
        },
        contacts: Map::empty(),
        avatars: Map::empty(),
        messages: Map::empty(),
        identities: Map::empty(),
        sessions: Map::empty(),
        prekeys: Map::empty(),
        signed_prekeys: Map::empty(),
        kyber_prekeys: Map::empty(),
        seen: Map::empty(),
    }
}

/// Tables that were wiped read as a clean slate, whatever the key.
pub proof fn lemma_wiped_reads_as_clean(key: Option<Seq<u8>>, raw: Raw)
    ensures
        as_read(key, wiped(raw)) == clean_slate(as_read(key, raw)),
{
    let a = as_read(key, wiped(raw));
    let b = clean_slate(as_read(key, raw));
    assert(a.meta =~= b.meta);
    assert(a.contacts =~= b.contacts);
    assert(a.avatars =~= b.avatars);
    assert(a.messages =~= b.messages);
    assert(a.identities =~= b.identities);
    assert(a.sessions =~= b.sessions);
    assert(a.prekeys =~= b.prekeys);
    assert(a.signed_prekeys =~= b.signed_prekeys);
    assert(a.kyber_prekeys =~= b.kyber_prekeys);
}

} // verus!
