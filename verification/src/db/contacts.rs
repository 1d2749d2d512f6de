//! The cached contact list. The server owns the truth; the cache keeps the app
//! usable while it cannot be reached.
#[allow(unused_imports)]
use vstd::utf8::encode_utf8;
use vstd::prelude::*;

#[allow(unused_imports)]
use crate::db::{
    can_seal, is_sealed, plain_contacts, plain_texts, unsealed, CachedContactView, DbView, Raw,
};
use crate::db::{CachedContact, DbWrite, LocalDb};
use crate::keystore::StorageError;
use crate::order::by_text;
#[allow(unused_imports)]
use crate::order::{is_named, names_each_once, not_after};

verus! {

/// A contact as it is listed.
pub struct ListedContact {
    pub username: String,
    pub alias: String,
    pub state: String,
}

/// The database with another contact in the cache.
pub open spec fn with_contact(
    db: DbView,
    username: Seq<char>,
    alias: Seq<char>,
    state: Seq<char>,
) -> DbView {
    DbView { contacts: db.contacts.insert(username, CachedContactView { alias, state }), ..db }
}

/// The contacts that a list amounts to: of two of the same name the later counts.
pub open spec fn contacts_listed(list: Seq<ListedContact>) -> Map<Seq<char>, CachedContactView>
    decreases list.len(),
{
    if list.len() == 0 {
        Map::empty()
    } else {
        contacts_listed(list.drop_last()).insert(
            list.last().username@,
            CachedContactView { alias: list.last().alias@, state: list.last().state@ },
        )
    }
}

/// Whether no name is listed twice.
pub open spec fn names_differ(list: Seq<ListedContact>) -> bool {
    forall|i: int, j: int|
        0 <= i < j < list.len() ==> (#[trigger] list[i]).username@ != (
        #[trigger] list[j]).username@
}

/// Whether the `n`-th entry of a list is the first whose name was there before.
pub open spec fn first_repeat(list: Seq<ListedContact>, n: int) -> bool {
    &&& 0 <= n < list.len()
    &&& names_differ(list.take(n))
    &&& !names_differ(list.take(n + 1))
}

/// Whether every name on a list can be sealed.
pub open spec fn aliases_fit(key: Option<Seq<u8>>, list: Seq<ListedContact>) -> bool {
    forall|i: int|
        0 <= i < list.len() ==> can_seal(key, encode_utf8((#[trigger] list[i]).alias@).len())
}

/// Whether a list holds each cached contact once, in order of their names.
pub open spec fn is_contact_cache(
    list: Seq<ListedContact>,
    contacts: Map<Seq<char>, CachedContactView>,
) -> bool {
    &&& forall|i: int|
        0 <= i < list.len() ==> contacts.contains_key((#[trigger] list[i]).username@)
            && list[i].alias@ == contacts[list[i].username@].alias && list[i].state@
            == contacts[list[i].username@].state
    &&& names_differ(list)
    &&& forall|i: int, j: int|
        0 <= i < j < list.len() ==> not_after(
            (#[trigger] list[i]).username@,
            (#[trigger] list[j]).username@,
        )
    &&& forall|name: Seq<char>| #[trigger]
        contacts.contains_key(name) ==> exists|i: int|
            0 <= i < list.len() && (#[trigger] list[i]).username@ == name
}

impl LocalDb {
    /// Caches a contact.
    pub fn upsert_contact(&mut self, username: &str, alias: &str, state: &str) -> (done: Result<
        (),
        StorageError,
    >)
        requires
            old(self).wf(),
        ensures
            final(self).wf(),
            final(self).key == old(self).key,
            done is Ok == can_seal(old(self).secret(), encode_utf8(alias@).len()),
            done is Ok ==> final(self)@ == with_contact(old(self)@, username@, alias@, state@)
                && is_sealed(final(self).secret(), final(self).raw().contacts[username@].alias),
            done matches Err(e) ==> e == StorageError::TooLong && final(self).raw() == old(self).raw(),
    {
        let stored = match self.seal(alias) {
            Ok(stored) => stored,
            Err(e) => {
                return Err(e);
            },
        };
        let ghost before = self.raw();
        let row = CachedContact { alias: stored, state: state.to_string() };
        self.write(DbWrite::PutContact { username: username.to_string(), row });
        assert(plain_contacts(self.secret(), self.raw().contacts) =~= plain_contacts(
            self.secret(),
            before.contacts,
        ).insert(username@, CachedContactView { alias: alias@, state: state@ }));
        Ok(())
    }

    /// Replaces the cached list with the server's, which owns the truth. A list
    /// that cannot be sealed replaces nothing; one that names somebody twice is
    /// taken up to there.
    pub fn replace_contacts(&mut self, contacts: &Vec<ListedContact>) -> (done: Result<
        (),
        StorageError,
    >)
        requires
            old(self).wf(),
        ensures
            final(self).wf(),
            final(self).key == old(self).key,
            match done {
                Ok(_) => {
                    &&& aliases_fit(old(self).secret(), contacts@)
                    &&& names_differ(contacts@)
                    &&& final(self)@ == (DbView {
                        contacts: contacts_listed(contacts@),
                        ..old(self)@
                    })
                    &&& forall|name: Seq<char>| #[trigger]
                        final(self).raw().contacts.contains_key(name) ==> is_sealed(
                            final(self).secret(),
                            final(self).raw().contacts[name].alias,
                        )
                },
                Err(e) => if !aliases_fit(old(self).secret(), contacts@) {
                    e == StorageError::TooLong && final(self).raw() == old(self).raw()
                } else {
                    e == StorageError::Duplicate && exists|n: int| #[trigger]
                        first_repeat(contacts@, n) && final(self)@ == (DbView {
                            contacts: contacts_listed(contacts@.take(n)),
                            ..old(self)@
                        })
                },
            },
    {
        let mut sealed: Vec<String> = Vec::new();
        let mut i: usize = 0;
        while i < contacts.len()
            invariant
                self.wf(),
                self.key == old(self).key,
                self.raw() == old(self).raw(),
                i <= contacts@.len(),
                sealed@.len() == i,
                forall|j: int|
                    0 <= j < i ==> can_seal(
                        self.secret(),
                        encode_utf8((#[trigger] contacts@[j]).alias@).len(),
                    ),
                forall|j: int|
                    0 <= j < i ==> unsealed(self.secret(), (#[trigger] sealed@[j])@)
                        == contacts@[j].alias@ && is_sealed(self.secret(), sealed@[j]@),
            decreases contacts@.len() - i,
        {
            match self.seal(&contacts[i].alias) {
                Ok(stored) => {
                    sealed.push(stored);
                },
                Err(e) => {
                    assert(!can_seal(
                        self.secret(),
                        encode_utf8(contacts@[i as int].alias@).len(),
                    ));
                    return Err(e);
                },
            }
            i = i + 1;
        }
        let ghost before = self.raw();
        self.write(DbWrite::DropContacts);
        let mut k: usize = 0;
        assert(contacts@.take(0) =~= Seq::<ListedContact>::empty());
        assert(plain_contacts(self.secret(), self.raw().contacts) =~= contacts_listed(
            contacts@.take(0),
        ));
        while k < contacts.len()
            invariant
                self.wf(),
                self.key == old(self).key,
                self.raw() == (Raw { contacts: self.raw().contacts, ..before }),
                k <= contacts@.len(),
                sealed@.len() == contacts@.len(),
                forall|j: int|
                    0 <= j < contacts@.len() ==> unsealed(self.secret(), (#[trigger] sealed@[j])@)
                        == contacts@[j].alias@ && is_sealed(self.secret(), sealed@[j]@),
                plain_contacts(self.secret(), self.raw().contacts) == contacts_listed(
                    contacts@.take(k as int),
                ),
                names_differ(contacts@.take(k as int)),
                before == old(self).raw(),
                aliases_fit(self.secret(), contacts@),
                forall|name: Seq<char>| #[trigger]
                    self.raw().contacts.contains_key(name) ==> is_sealed(
                        self.secret(),
                        self.raw().contacts[name].alias,
                    ),
            decreases contacts@.len() - k,
        {
            let ghost was = self.raw();
            let repeated = self.contacts.has(&contacts[k].username);
            proof {
                lemma_listed_names(contacts@.take(k as int), contacts@[k as int].username@);
                assert(plain_contacts(self.secret(), was.contacts).contains_key(
                    contacts@[k as int].username@,
                ) == repeated);
                lemma_one_more_name(contacts@, k as int);
            }
            if repeated {
                assert(first_repeat(contacts@, k as int));
                return Err(StorageError::Duplicate);
            }
            let row = CachedContact {
                alias: sealed[k].clone(),
                state: contacts[k].state.clone(),
            };
            let ghost listed = contacts@[k as int];
            assert(unsealed(self.secret(), sealed@[k as int]@) == listed.alias@);
            self.write(DbWrite::PutContact { username: contacts[k].username.clone(), row });
            proof {
                assert(contacts@.take(k + 1).drop_last() =~= contacts@.take(k as int));
                assert(contacts@.take(k + 1).last() == listed);
                assert(plain_contacts(self.secret(), self.raw().contacts) =~= plain_contacts(
                    self.secret(),
                    was.contacts,
                ).insert(
                    listed.username@,
                    CachedContactView { alias: listed.alias@, state: listed.state@ },
                ));
            }
            k = k + 1;
        }
        assert(contacts@.take(contacts@.len() as int) =~= contacts@);
        Ok(())
    }

    /// Cached contacts, in order of their names.
    pub fn contacts(&self) -> (list: Vec<ListedContact>)
        requires
            self.wf(),
        ensures
            is_contact_cache(list@, self@.contacts),
    {
        proof {
            self.contacts.lemma_rows_are_the_map();
        }
        let mut names: Vec<String> = Vec::new();
        let mut i: usize = 0;
        while i < self.contacts.rows.len()
            invariant
                i <= self.contacts.rows@.len(),
                names@.len() == i,
                forall|j: int| 0 <= j < i ==> (#[trigger] names@[j])@ == self.contacts.rows@[j].0@,
            decreases self.contacts.rows@.len() - i,
        {
            names.push(self.contacts.rows[i].0.clone());
            i = i + 1;
        }
        let order = by_text(&names);
        let mut list: Vec<ListedContact> = Vec::new();
        let mut k: usize = 0;
        while k < order.len()
            invariant
                self.wf(),
                k <= order@.len(),
                names_each_once(order@, self.contacts.rows@.len()),
                list@.len() == k,
                forall|j: int|
                    0 <= j < k ==> {
                        let row = self.contacts.rows@[order@[j] as int];
                        &&& (#[trigger] list@[j]).username@ == row.0@
                        &&& list@[j].alias@ == unsealed(self.secret(), row.1.alias@)
                        &&& list@[j].state@ == row.1.state@
                    },
            decreases order@.len() - k,
        {
            let row = &self.contacts.rows[order[k]];
            list.push(
                ListedContact {
                    username: row.0.clone(),
                    alias: self.unseal(&row.1.alias),
                    state: row.1.state.clone(),
                },
            );
            k = k + 1;
        }
        proof {
            let rows = self.contacts.rows@;
            let contacts = self@.contacts;
            assert forall|i: int| 0 <= i < list@.len() implies contacts.contains_key(
                (#[trigger] list@[i]).username@,
            ) && list@[i].alias@ == contacts[list@[i].username@].alias && list@[i].state@
                == contacts[list@[i].username@].state by {
                let row = rows[order@[i] as int];
                assert(self.contacts@.contains_key(row.0@));
            }
            assert forall|i: int, j: int| 0 <= i < j < list@.len() implies (
            #[trigger] list@[i]).username@ != (#[trigger] list@[j]).username@ && not_after(
                list@[i].username@,
                list@[j].username@,
            ) by {
                let p = order@[i] as int;
                let q = order@[j] as int;
                assert(p != q);
                assert(self.contacts.entries()[p].0 != self.contacts.entries()[q].0);
                assert(names@[p]@ == rows[p].0@ && names@[q]@ == rows[q].0@);
            }
            assert forall|name: Seq<char>| #[trigger] contacts.contains_key(name) implies exists|
                i: int,
            | 0 <= i < list@.len() && (#[trigger] list@[i]).username@ == name by {
                assert(self.contacts@.contains_key(name));
                let p = choose|p: int| 0 <= p < rows.len() && (#[trigger] rows[p]).0@ == name;
                assert(is_named(order@, p));
                let i = choose|i: int| 0 <= i < order@.len() && (#[trigger] order@[i]) as int == p;
                assert(list@[i].username@ == name);
            }
        }
        list
    }

    /// The picture of a contact, where there is one.
    pub fn contact_avatar(&self, username: &str) -> (avatar: Option<String>)
        requires
            self.wf(),
        ensures
            match avatar {
                Some(avatar) => self@.avatars.contains_key(username@) && self@.avatars[username@]
                    == avatar@,
                None => !self@.avatars.contains_key(username@),
            },
    {
        let name = username.to_string();
        match self.avatars.get(&name) {
            Some(stored) => Some(self.unseal(stored)),
            None => None,
        }
    }

    /// Keeps the picture of a contact, or forgets it.
    pub fn set_contact_avatar(&mut self, username: &str, avatar: Option<&str>) -> (done: Result<
        (),
        StorageError,
    >)
        requires
            old(self).wf(),
        ensures
            final(self).wf(),
            final(self).key == old(self).key,
            done is Ok == (avatar is Some ==> can_seal(
                old(self).secret(),
                encode_utf8(avatar->0@).len(),
            )),
            done is Ok ==> final(self)@ == (DbView {
                avatars: match avatar {
                    Some(avatar) => old(self)@.avatars.insert(username@, avatar@),
                    None => old(self)@.avatars.remove(username@),
                },
                ..old(self)@
            }),
            done is Ok && avatar is Some ==> is_sealed(
                final(self).secret(),
                final(self).raw().avatars[username@],
            ),
            done matches Err(e) ==> e == StorageError::TooLong && final(self).raw() == old(self).raw(),
    {
        let ghost before = self.raw();
        match avatar {
            Some(avatar) => {
                let stored = match self.seal(avatar) {
                    Ok(stored) => stored,
                    Err(e) => {
                        return Err(e);
                    },
                };
                self.write(
                    DbWrite::PutAvatar { username: username.to_string(), avatar: stored },
                );
                assert(plain_texts(self.secret(), self.raw().avatars) =~= plain_texts(
                    self.secret(),
                    before.avatars,
                ).insert(username@, avatar@));
            },
            None => {
                self.write(DbWrite::DropAvatar { username: username.to_string() });
                assert(plain_texts(self.secret(), self.raw().avatars) =~= plain_texts(
                    self.secret(),
                    before.avatars,
                ).remove(username@));
            },
        }
        Ok(())
    }
}

/// The names of a list are the keys of what it amounts to.
proof fn lemma_listed_names(list: Seq<ListedContact>, name: Seq<char>)
    ensures
        contacts_listed(list).contains_key(name) == exists|i: int|
            0 <= i < list.len() && (#[trigger] list[i]).username@ == name,
    decreases list.len(),
{
    if list.len() > 0 {
        let front = list.drop_last();
        lemma_listed_names(front, name);
        if contacts_listed(front).contains_key(name) {
            let i = choose|i: int| 0 <= i < front.len() && (#[trigger] front[i]).username@ == name;
            assert(list[i].username@ == name);
        }
        if list.last().username@ == name {
            assert(list[list.len() - 1].username@ == name);
        }
        if exists|i: int| 0 <= i < list.len() && (#[trigger] list[i]).username@ == name {
            let i = choose|i: int| 0 <= i < list.len() && (#[trigger] list[i]).username@ == name;
            if i < front.len() {
                assert(front[i].username@ == name);
            }
        }
    }
}

/// One more name on a list is a repeat if it was there before.
proof fn lemma_one_more_name(list: Seq<ListedContact>, n: int)
    requires
        0 <= n < list.len(),
        names_differ(list.take(n)),
    ensures
        names_differ(list.take(n + 1)) == !(exists|i: int|
            0 <= i < n && (#[trigger] list.take(n)[i]).username@ == list[n].username@),
{
    let front = list.take(n);
    let more = list.take(n + 1);
    if exists|i: int| 0 <= i < n && (#[trigger] front[i]).username@ == list[n].username@ {
        let i = choose|i: int| 0 <= i < n && (#[trigger] front[i]).username@ == list[n].username@;
        assert(more[i].username@ == more[n].username@);
    } else {
        assert forall|i: int, j: int| 0 <= i < j < more.len() implies (
        #[trigger] more[i]).username@ != (#[trigger] more[j]).username@ by {
            assert(more[i] == front[i]);
            if j < n {
                assert(more[j] == front[j]);
            }
        }
    }
}

} // verus!
