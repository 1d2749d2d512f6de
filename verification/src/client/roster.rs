//! The contact list, and pictures.
#[allow(unused_imports)]
use vstd::utf8::encode_utf8;
use vstd::prelude::*;

use crate::api::ContactEntry;
#[allow(unused_imports)]
use crate::api::{entries_seen, ContactEntryView};
use crate::client::{Actor, ClientFault};
#[allow(unused_imports)]
use crate::client::ActorView;
use crate::db::contacts::ListedContact;
#[allow(unused_imports)]
use crate::db::contacts::{
    aliases_fit, contacts_listed, first_repeat, is_contact_cache, names_differ,
};
#[allow(unused_imports)]
use crate::db::meta::{lemma_profile_keys, value_of, with_meta};
#[allow(unused_imports)]
use crate::db::{can_seal, CachedContactView, DbView};
use crate::keystore::StorageError;
#[allow(unused_imports)]
use crate::text::{text_in, texts};
use crate::text::same_text;

verus! {

/// The picture that this device keeps of a contact.
pub open spec fn picture_of(db: DbView, username: Seq<char>) -> Option<Seq<char>> {
    if db.avatars.contains_key(username) {
        Some(db.avatars[username])
    } else {
        None
    }
}

/// Whether a contact just became accepted: the moment they can be handed our
/// profile picture.
pub open spec fn newly_accepted(db: DbView, entry: ContactEntryView) -> bool {
    entry.state == "accepted"@ && !(db.contacts.contains_key(entry.username)
        && db.contacts[entry.username].state == "accepted"@)
}

/// The names of the entries that just became accepted, in order.
pub open spec fn fresh_names(db: DbView, entries: Seq<ContactEntryView>) -> Seq<Seq<char>>
    decreases entries.len(),
{
    if entries.len() == 0 {
        Seq::empty()
    } else {
        let front = fresh_names(db, entries.drop_last());
        if newly_accepted(db, entries.last()) {
            front.push(entries.last().username)
        } else {
            front
        }
    }
}

/// What a list of entries amounts to in the cache.
pub open spec fn cache_of(entries: Seq<ContactEntryView>) -> Map<Seq<char>, CachedContactView>
    decreases entries.len(),
{
    if entries.len() == 0 {
        Map::empty()
    } else {
        cache_of(entries.drop_last()).insert(
            entries.last().username,
            CachedContactView { alias: entries.last().alias, state: entries.last().state },
        )
    }
}

/// Whether no name is there twice.
pub open spec fn entry_names_differ(entries: Seq<ContactEntryView>) -> bool {
    forall|i: int, j: int|
        0 <= i < j < entries.len() ==> (#[trigger] entries[i]).username != (
        #[trigger] entries[j]).username
}

/// Whether every alias can be sealed.
pub open spec fn entry_aliases_fit(secret: Option<Seq<u8>>, entries: Seq<ContactEntryView>) -> bool {
    forall|i: int|
        0 <= i < entries.len() ==> can_seal(secret, encode_utf8((#[trigger] entries[i]).alias).len())
}

/// Whether an entry is the first whose name was there before.
pub open spec fn first_entry_repeat(entries: Seq<ContactEntryView>, n: int) -> bool {
    &&& 0 <= n < entries.len()
    &&& entry_names_differ(entries.take(n))
    &&& !entry_names_differ(entries.take(n + 1))
}

/// Whether the cache is what is left of the server's list: all of it, or, where a
/// name is there twice, what comes before that; a list that cannot be sealed
/// leaves the cache as it was.
pub open spec fn cache_synced(before: ActorView, after: ActorView, entries: Seq<ContactEntryView>) -> bool {
    let contacts = after.db.contacts;
    &&& after == (ActorView { db: DbView { contacts, ..before.db }, ..before })
    &&& if !entry_aliases_fit(before.secret, entries) {
        contacts == before.db.contacts
    } else if entry_names_differ(entries) {
        contacts == cache_of(entries)
    } else {
        exists|n: int| #[trigger]
            first_entry_repeat(entries, n) && contacts == cache_of(entries.take(n))
    }
}

/// Entries with the pictures that this device keeps.
pub open spec fn with_pictures(db: DbView, entries: Seq<ContactEntryView>) -> Seq<ContactEntryView> {
    entries.map_values(
        |e: ContactEntryView| ContactEntryView { avatar: picture_of(db, e.username), ..e },
    )
}

/// A cached contact as an entry: the cache only knows who they are, not where.
pub open spec fn entry_from_cache(db: DbView, username: Seq<char>) -> ContactEntryView {
    ContactEntryView {
        username,
        alias: db.contacts[username].alias,
        state: db.contacts[username].state,
        status: "offline"@,
        last_seen: None,
        avatar: picture_of(db, username),
    }
}

/// Whether a list of entries is the cache.
pub open spec fn is_cached_list(list: Seq<ContactEntry>, db: DbView) -> bool {
    &&& forall|i: int|
        0 <= i < list.len() ==> db.contacts.contains_key((#[trigger] list[i])@.username)
            && list[i]@ == entry_from_cache(db, list[i]@.username)
    &&& forall|i: int, j: int|
        0 <= i < j < list.len() ==> (#[trigger] list[i])@.username != (
        #[trigger] list[j])@.username && crate::order::not_after(
            list[i]@.username,
            list[j]@.username,
        )
    &&& forall|name: Seq<char>| #[trigger]
        db.contacts.contains_key(name) ==> exists|i: int|
            0 <= i < list.len() && (#[trigger] list[i])@.username == name
}

/// Whether a list names each accepted contact once.
pub open spec fn names_the_accepted(list: Seq<String>, contacts: Map<Seq<char>, CachedContactView>) -> bool {
    &&& forall|i: int|
        0 <= i < list.len() ==> contacts.contains_key((#[trigger] list[i])@)
            && contacts[list[i]@].state == "accepted"@
    &&& forall|i: int, j: int|
        0 <= i < j < list.len() ==> (#[trigger] list[i])@ != (#[trigger] list[j])@
    &&& forall|name: Seq<char>| #[trigger]
        contacts.contains_key(name) && contacts[name].state == "accepted"@ ==> exists|i: int|
            0 <= i < list.len() && (#[trigger] list[i])@ == name
}

/// The server's list, for the cache.
fn as_listed(entries: &Vec<ContactEntry>) -> (list: Vec<ListedContact>)
    ensures
        list@.len() == entries@.len(),
        forall|i: int|
            0 <= i < list@.len() ==> (#[trigger] list@[i]).username@ == entries@[i]@.username
                && list@[i].alias@ == entries@[i]@.alias && list@[i].state@ == entries@[i]@.state,
{
    let mut list: Vec<ListedContact> = Vec::new();
    let mut i: usize = 0;
    while i < entries.len()
        invariant
            i <= entries@.len(),
            list@.len() == i,
            forall|j: int|
                0 <= j < i ==> (#[trigger] list@[j]).username@ == entries@[j]@.username
                    && list@[j].alias@ == entries@[j]@.alias && list@[j].state@
                    == entries@[j]@.state,
        decreases entries@.len() - i,
    {
        list.push(
            ListedContact {
                username: entries[i].username.clone(),
                alias: entries[i].alias.clone(),
                state: entries[i].state.clone(),
            },
        );
        i = i + 1;
    }
    list
}

proof fn lemma_listed_is_cached(
    list: Seq<ListedContact>,
    entries: Seq<ContactEntryView>,
    secret: Option<Seq<u8>>,
    n: int,
)
    requires
        list.len() == entries.len(),
        0 <= n <= list.len(),
        forall|i: int|
            0 <= i < list.len() ==> (#[trigger] list[i]).username@ == entries[i].username
                && list[i].alias@ == entries[i].alias && list[i].state@ == entries[i].state,
    ensures
        contacts_listed(list.take(n)) == cache_of(entries.take(n)),
        names_differ(list.take(n)) == entry_names_differ(entries.take(n)),
        aliases_fit(secret, list) == entry_aliases_fit(secret, entries),
    decreases n,
{
    if n > 0 {
        lemma_listed_is_cached(list, entries, secret, n - 1);
        assert(list.take(n).drop_last() =~= list.take(n - 1));
        assert(entries.take(n).drop_last() =~= entries.take(n - 1));
        assert(list.take(n).last() == list[n - 1]);
        assert(entries.take(n).last() == entries[n - 1]);
        assert(list[n - 1].username@ == entries[n - 1].username);
    } else {
        assert(contacts_listed(list.take(0)) =~= cache_of(entries.take(0)));
    }
    let a = list.take(n);
    let b = entries.take(n);
    if names_differ(a) {
        assert forall|i: int, j: int| 0 <= i < j < b.len() implies (#[trigger] b[i]).username != (
        #[trigger] b[j]).username by {
            assert(a[i] == list[i] && a[j] == list[j]);
            assert(a[i].username@ != a[j].username@);
        }
    }
    if entry_names_differ(b) {
        assert forall|i: int, j: int| 0 <= i < j < a.len() implies (#[trigger] a[i]).username@ != (
        #[trigger] a[j]).username@ by {
            assert(a[i] == list[i] && a[j] == list[j]);
            assert(b[i] == entries[i] && b[j] == entries[j]);
            assert(b[i].username != b[j].username);
        }
    }
    if aliases_fit(secret, list) {
        assert forall|i: int| 0 <= i < entries.len() implies can_seal(
            secret,
            encode_utf8((#[trigger] entries[i]).alias).len(),
        ) by {
            assert(list[i].alias@ == entries[i].alias);
        }
    }
    if entry_aliases_fit(secret, entries) {
        assert forall|i: int| 0 <= i < list.len() implies can_seal(
            secret,
            encode_utf8((#[trigger] list[i]).alias@).len(),
        ) by {
            assert(entries[i].alias == list[i].alias@);
        }
    }
}

impl Actor {
    /// Takes in the server's contact list: caches it, and hands it out with the
    /// pictures that this device keeps, and the names of those who have just
    /// become accepted.
    pub fn sync_contacts(&mut self, entries: Vec<ContactEntry>) -> (synced: (
        Vec<ContactEntry>,
        Vec<String>,
    ))
        requires
            old(self).wf(),
        ensures
            final(self).wf(),
            cache_synced(old(self)@, final(self)@, entries_seen(entries@)),
            entries_seen(synced.0@) == with_pictures(old(self)@.db, entries_seen(entries@)),
            texts(synced.1@) == fresh_names(old(self)@.db, entries_seen(entries@)),
    {
        let ghost seen = entries_seen(entries@);
        let ghost before = self@;
        let mut fresh: Vec<String> = Vec::new();
        let mut i: usize = 0;
        proof {
            assert(seen.take(0) =~= Seq::<ContactEntryView>::empty());
            assert(texts(fresh@) =~= Seq::<Seq<char>>::empty());
        }
        while i < entries.len()
            invariant
                self.wf(),
                self@ == before,
                seen == entries_seen(entries@),
                i <= entries@.len(),
                texts(fresh@) == fresh_names(before.db, seen.take(i as int)),
            decreases entries@.len() - i,
        {
            let entry = &entries[i];
            proof {
                assert(seen.take(i + 1).drop_last() =~= seen.take(i as int));
                assert(seen.take(i + 1).last() == entry@);
            }
            let was_accepted = match self.db.contacts.get(&entry.username) {
                Some(row) => same_text(&row.state, "accepted"),
                None => false,
            };
            if same_text(&entry.state, "accepted") && !was_accepted {
                let ghost names = fresh@;
                fresh.push(entry.username.clone());
                assert(texts(fresh@) =~= texts(names).push(entry@.username));
            }
            i = i + 1;
        }
        assert(seen.take(seen.len() as int) =~= seen);
        let listed = as_listed(&entries);
        proof {
            lemma_listed_is_cached(listed@, seen, before.secret, seen.len() as int);
            assert(listed@.take(listed@.len() as int) =~= listed@);
        }
        let done = self.db.replace_contacts(&listed);
        proof {
            if done is Err && entry_aliases_fit(before.secret, seen) {
                let n = choose|n: int| #[trigger]
                    first_repeat(listed@, n) && self.db@ == (DbView {
                        contacts: contacts_listed(listed@.take(n)),
                        ..before.db
                    });
                lemma_listed_is_cached(listed@, seen, before.secret, n);
                lemma_listed_is_cached(listed@, seen, before.secret, n + 1);
                assert(first_entry_repeat(seen, n));
                assert(!entry_names_differ(seen)) by {
                    if entry_names_differ(seen) {
                        assert forall|i: int, j: int|
                            0 <= i < j < seen.take(n + 1).len() implies (#[trigger] seen.take(
                            n + 1,
                        )[i]).username != (#[trigger] seen.take(n + 1)[j]).username by {
                            assert(seen[i].username != seen[j].username);
                        }
                    }
                }
            }
            assert(cache_synced(before, self@, seen));
        }
        let mut list: Vec<ContactEntry> = Vec::new();
        let mut k: usize = 0;
        while k < entries.len()
            invariant
                self.wf(),
                self@.db.avatars == before.db.avatars,
                seen == entries_seen(entries@),
                k <= entries@.len(),
                list@.len() == k,
                forall|j: int|
                    0 <= j < k ==> (#[trigger] list@[j])@ == (ContactEntryView {
                        avatar: picture_of(before.db, seen[j].username),
                        ..seen[j]
                    }),
            decreases entries@.len() - k,
        {
            let entry = &entries[k];
            let avatar = self.db.contact_avatar(&entry.username);
            list.push(
                ContactEntry {
                    username: entry.username.clone(),
                    alias: entry.alias.clone(),
                    state: entry.state.clone(),
                    status: entry.status.clone(),
                    last_seen: entry.last_seen,
                    avatar,
                },
            );
            k = k + 1;
        }
        assert(entries_seen(list@) =~= with_pictures(before.db, seen));
        (list, fresh)
    }

    /// The contact list while the server cannot be reached: the cache.
    pub fn cached_contacts(&self) -> (list: Vec<ContactEntry>)
        requires
            self.wf(),
        ensures
            is_cached_list(list@, self@.db),
    {
        let rows = self.db.contacts();
        let mut list: Vec<ContactEntry> = Vec::new();
        let mut i: usize = 0;
        while i < rows.len()
            invariant
                self.wf(),
                is_contact_cache(rows@, self@.db.contacts),
                i <= rows@.len(),
                list@.len() == i,
                forall|j: int|
                    0 <= j < i ==> (#[trigger] list@[j])@ == entry_from_cache(
                        self@.db,
                        rows@[j].username@,
                    ),
            decreases rows@.len() - i,
        {
            let row = &rows[i];
            let avatar = self.db.contact_avatar(&row.username);
            assert(self@.db.contacts.contains_key(rows@[i as int].username@));
            list.push(
                ContactEntry {
                    username: row.username.clone(),
                    alias: row.alias.clone(),
                    state: row.state.clone(),
                    status: "offline".to_string(),
                    last_seen: None,
                    avatar,
                },
            );
            i = i + 1;
        }
        proof {
            let db = self@.db;
            assert forall|i: int| 0 <= i < list@.len() implies db.contacts.contains_key(
                (#[trigger] list@[i])@.username,
            ) && list@[i]@ == entry_from_cache(db, list@[i]@.username) && list@[i]@.username
                == rows@[i].username@ by {
                assert(db.contacts.contains_key(rows@[i].username@));
            }
            assert forall|i: int, j: int| 0 <= i < j < list@.len() implies (
            #[trigger] list@[i])@.username != (#[trigger] list@[j])@.username
                && crate::order::not_after(list@[i]@.username, list@[j]@.username) by {
                assert(rows@[i].username@ != rows@[j].username@);
            }
            assert forall|name: Seq<char>| #[trigger]
                db.contacts.contains_key(name) implies exists|i: int|
                0 <= i < list@.len() && (#[trigger] list@[i])@.username == name by {
                let i = choose|i: int|
                    0 <= i < rows@.len() && (#[trigger] rows@[i]).username@ == name;
                assert(list@[i]@.username == name);
            }
        }
        list
    }

    /// Everyone who may be handed our picture.
    pub fn accepted_contacts(&self) -> (list: Vec<String>)
        requires
            self.wf(),
        ensures
            names_the_accepted(list@, self@.db.contacts),
    {
        let rows = self.db.contacts();
        let mut list: Vec<String> = Vec::new();
        let ghost mut from: Seq<int> = Seq::empty();
        let mut i: usize = 0;
        while i < rows.len()
            invariant
                is_contact_cache(rows@, self@.db.contacts),
                i <= rows@.len(),
                from.len() == list@.len(),
                forall|j: int|
                    0 <= j < list@.len() ==> 0 <= #[trigger] from[j] < i
                        && rows@[from[j]].username@ == list@[j]@ && rows@[from[j]].state@
                        == "accepted"@,
                forall|j: int, k: int|
                    0 <= j < k < list@.len() ==> (#[trigger] from[j]) < (#[trigger] from[k]),
                forall|p: int|
                    0 <= p < i && (#[trigger] rows@[p]).state@ == "accepted"@ ==> exists|j: int|
                        0 <= j < list@.len() && (#[trigger] list@[j])@ == rows@[p].username@,
            decreases rows@.len() - i,
        {
            if same_text(&rows[i].state, "accepted") {
                let ghost was = list@;
                list.push(rows[i].username.clone());
                proof {
                    from = from.push(i as int);
                    assert forall|p: int|
                        0 <= p < i + 1 && (#[trigger] rows@[p]).state@
                            == "accepted"@ implies exists|j: int|
                        0 <= j < list@.len() && (#[trigger] list@[j])@ == rows@[p].username@ by {
                        if p < i {
                            let j = choose|j: int|
                                0 <= j < was.len() && (#[trigger] was[j])@ == rows@[p].username@;
                            assert(list@[j] == was[j]);
                        } else {
                            assert(list@[was.len() as int]@ == rows@[p].username@);
                        }
                    }
                }
            }
            i = i + 1;
        }
        proof {
            let db = self@.db;
            assert forall|j: int| 0 <= j < list@.len() implies db.contacts.contains_key(
                (#[trigger] list@[j])@,
            ) && db.contacts[list@[j]@].state == "accepted"@ by {
                let p = from[j];
                assert(db.contacts.contains_key(rows@[p].username@));
            }
            assert forall|j: int, k: int| 0 <= j < k < list@.len() implies (#[trigger] list@[j])@
                != (#[trigger] list@[k])@ by {
                let p = from[j];
                let q = from[k];
                assert(rows@[p].username@ != rows@[q].username@);
            }
            assert forall|name: Seq<char>| #[trigger]
                db.contacts.contains_key(name) && db.contacts[name].state
                    == "accepted"@ implies exists|j: int|
                0 <= j < list@.len() && (#[trigger] list@[j])@ == name by {
                let p = choose|p: int|
                    0 <= p < rows@.len() && (#[trigger] rows@[p]).username@ == name;
                assert(rows@[p].state@ == "accepted"@);
            }
        }
        list
    }

    /// Sets our own profile picture, or clears it, and names everyone it is handed
    /// to. It travels as an encrypted message like any other, so the server never
    /// sees it.
    pub fn set_avatar(&mut self, avatar: Option<&str>) -> (to: Result<Vec<String>, ClientFault>)
        requires
            old(self).wf(),
        ensures
            final(self).wf(),
            to is Ok == (avatar is Some ==> can_seal(
                old(self)@.secret,
                encode_utf8(avatar->0@).len(),
            )),
            to matches Ok(list) ==> {
                &&& final(self)@ == (ActorView {
                    db: with_meta(
                        old(self)@.db,
                        match avatar {
                            Some(data) => old(self)@.db.meta.insert("avatar"@, data@),
                            None => old(self)@.db.meta.remove("avatar"@),
                        },
                    ),
                    ..old(self)@
                })
                &&& names_the_accepted(list@, old(self)@.db.contacts)
            },
            to matches Err(e) ==> e == ClientFault::Storage(StorageError::TooLong) && final(self)@
                == old(self)@,
    {
        proof {
            lemma_profile_keys();
        }
        match avatar {
            Some(data) => match self.db.meta_set("avatar", data) {
                Ok(_) => {},
                Err(e) => {
                    return Err(ClientFault::Storage(e));
                },
            },
            None => self.db.meta_delete("avatar"),
        }
        Ok(self.accepted_contacts())
    }

    /// Our own profile picture, for contacts that have just become reachable.
    pub fn own_avatar(&self) -> (avatar: Option<String>)
        requires
            self.wf(),
        ensures
            text_in(avatar) == value_of(self@.db.meta, "avatar"@),
    {
        self.db.meta_get("avatar")
    }
}

} // verus!
