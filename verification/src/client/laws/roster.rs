//! What holds of the cached contacts and their pictures.
use vstd::prelude::*;

#[allow(unused_imports)]
use crate::api::{ContactEntry, ContactEntryView};
#[allow(unused_imports)]
use crate::client::commands::shared_picture;
#[allow(unused_imports)]
use crate::client::conversations::{
    holds_the_contacts, holds_the_messages, is_everything, pictures_merged,
};
#[allow(unused_imports)]
use crate::client::roster::{
    cache_of, cache_synced, entry_aliases_fit, entry_from_cache, entry_names_differ, fresh_names,
    is_cached_list, newly_accepted, picture_of, with_pictures,
};
#[allow(unused_imports)]
use crate::client::{control, picture, ActorView};
#[allow(unused_imports)]
use crate::db::meta::{profile_in, value_of};
#[allow(unused_imports)]
use crate::db::{can_seal, CachedContactView, DbView, MessageView};
#[allow(unused_imports)]
use crate::export_json::{ExportView, ExportedContactView};
#[allow(unused_imports)]
use vstd::utf8::encode_utf8;

verus! {

proof fn lemma_cache_holds(entries: Seq<ContactEntryView>, i: int)
    requires
        entry_names_differ(entries),
        0 <= i < entries.len(),
    ensures
        cache_of(entries).contains_key(entries[i].username),
        cache_of(entries)[entries[i].username].alias == entries[i].alias,
        cache_of(entries)[entries[i].username].state == entries[i].state,
    decreases entries.len(),
{
    let last = entries.len() - 1;
    if i < last {
        let front = entries.drop_last();
        assert(entry_names_differ(front)) by {
            assert forall|x: int, y: int| 0 <= x < y < front.len() implies (
            #[trigger] front[x]).username != (#[trigger] front[y]).username by {
                assert(entries[x].username != entries[y].username);
            }
        }
        lemma_cache_holds(front, i);
        assert(entries[i].username != entries[last].username);
        assert(front[i] == entries[i]);
    }
}

proof fn lemma_cache_holds_no_more(entries: Seq<ContactEntryView>, name: Seq<char>)
    requires
        cache_of(entries).contains_key(name),
    ensures
        exists|i: int| 0 <= i < entries.len() && (#[trigger] entries[i]).username == name,
    decreases entries.len(),
{
    if entries.len() > 0 {
        if entries.last().username == name {
            assert(entries[entries.len() - 1].username == name);
        } else {
            lemma_cache_holds_no_more(entries.drop_last(), name);
            let i = choose|i: int|
                0 <= i < entries.drop_last().len() && (#[trigger] entries.drop_last()[i]).username
                    == name;
            assert(entries[i].username == name);
        }
    }
}

/// The contacts that the relay lists are the contacts that are shown without it:
/// each under the alias and in the state that were listed, and nobody else. Nothing
/// but the cached contacts changes.
pub proof fn what_the_relay_lists_is_cached(
    before: ActorView,
    after: ActorView,
    entries: Seq<ContactEntryView>,
    i: int,
    name: Seq<char>,
    list: Seq<ContactEntry>,
)
    requires
        cache_synced(before, after, entries),
        entry_aliases_fit(before.secret, entries),
        entry_names_differ(entries),
        0 <= i < entries.len(),
        is_cached_list(list, after.db),
    ensures
        exists|j: int|
            0 <= j < list.len() && (#[trigger] list[j]).username@ == entries[i].username
                && list[j].alias@ == entries[i].alias && list[j].state@ == entries[i].state
                && list[j].status@ == "offline"@ && list[j].last_seen is None,
        after.db.contacts.contains_key(name) <==> exists|k: int|
            0 <= k < entries.len() && (#[trigger] entries[k]).username == name,
        after.db.messages == before.db.messages,
        after.db.meta == before.db.meta,
        after.db.avatars == before.db.avatars,
        after.session == before.session,
{
    lemma_cache_holds(entries, i);
    let j = choose|j: int|
        0 <= j < list.len() && (#[trigger] list[j])@.username == entries[i].username;
    assert(list[j]@ == entry_from_cache(after.db, entries[i].username));
    assert(list[j].username@ == entries[i].username);
    if after.db.contacts.contains_key(name) {
        lemma_cache_holds_no_more(entries, name);
    }
    if exists|k: int| 0 <= k < entries.len() && (#[trigger] entries[k]).username == name {
        let k = choose|k: int| 0 <= k < entries.len() && (#[trigger] entries[k]).username == name;
        lemma_cache_holds(entries, k);
    }
}

/// A contact is shown with the picture that this device keeps of them, and is
/// otherwise as the relay listed them.
pub proof fn a_contact_is_shown_with_their_picture(
    db: DbView,
    entries: Seq<ContactEntryView>,
    i: int,
)
    requires
        0 <= i < entries.len(),
    ensures
        ({
            let shown = with_pictures(db, entries);
            &&& shown.len() == entries.len()
            &&& shown[i].username == entries[i].username
            &&& shown[i].alias == entries[i].alias
            &&& shown[i].state == entries[i].state
            &&& shown[i].status == entries[i].status
            &&& shown[i].last_seen == entries[i].last_seen
            &&& db.avatars.contains_key(entries[i].username) ==> shown[i].avatar == Some(
                db.avatars[entries[i].username],
            )
            &&& !db.avatars.contains_key(entries[i].username) ==> shown[i].avatar is None
        }),
{
}

/// A contact that is accepted for the first time is sent our picture, if we have
/// one; nobody is sent it who is not, or was before.
pub proof fn a_new_contact_is_sent_our_picture(
    db: DbView,
    entries: Seq<ContactEntryView>,
    name: Seq<char>,
)
    ensures
        (exists|i: int| 0 <= i < fresh_names(db, entries).len() && (
        #[trigger] fresh_names(db, entries)[i]) == name) <==> exists|k: int|
            0 <= k < entries.len() && (#[trigger] entries[k]).username == name && entries[k].state
                == "accepted"@ && !(db.contacts.contains_key(name) && db.contacts[name].state
                == "accepted"@),
        value_of(db.meta, "avatar"@) is None ==> shared_picture(db, entries).len() == 0,
        value_of(db.meta, "avatar"@) is Some ==> {
            let list = shared_picture(db, entries);
            &&& list.len() == fresh_names(db, entries).len()
            &&& forall|i: int|
                0 <= i < list.len() ==> (#[trigger] list[i]).to == fresh_names(db, entries)[i]
                    && list[i].kind == "avatar"@ && list[i].content == db.meta["avatar"@]
        },
    decreases entries.len(),
{
    let names = fresh_names(db, entries);
    if entries.len() > 0 {
        let front = entries.drop_last();
        let before = fresh_names(db, front);
        a_new_contact_is_sent_our_picture(db, front, name);
        let last = entries.len() - 1;
        if exists|i: int| 0 <= i < names.len() && (#[trigger] names[i]) == name {
            let i = choose|i: int| 0 <= i < names.len() && (#[trigger] names[i]) == name;
            if i < before.len() {
                assert(before[i] == name);
                let k = choose|k: int|
                    0 <= k < front.len() && (#[trigger] front[k]).username == name
                        && front[k].state == "accepted"@ && !(db.contacts.contains_key(name)
                        && db.contacts[name].state == "accepted"@);
                assert(entries[k].username == name);
            } else {
                assert(entries[last].username == name);
            }
        }
        if exists|k: int|
            0 <= k < entries.len() && (#[trigger] entries[k]).username == name && entries[k].state
                == "accepted"@ && !(db.contacts.contains_key(name) && db.contacts[name].state
                == "accepted"@) {
            let k = choose|k: int|
                0 <= k < entries.len() && (#[trigger] entries[k]).username == name
                    && entries[k].state == "accepted"@ && !(db.contacts.contains_key(name)
                    && db.contacts[name].state == "accepted"@);
            if k == last {
                assert(names[before.len() as int] == name);
            } else {
                assert(front[k].username == name);
                let i = choose|i: int| 0 <= i < before.len() && (#[trigger] before[i]) == name;
                assert(names[i] == name);
            }
        }
    }
}

/// An export holds every contact, with the alias and the picture that are kept of
/// them, and says whose it is and of when.
pub proof fn an_export_holds_every_contact(
    e: ExportView,
    db: DbView,
    now: i64,
    name: Seq<char>,
)
    requires
        is_everything(e, db, now),
        db.contacts.contains_key(name),
    ensures
        exists|i: int|
            0 <= i < e.contacts.len() && (#[trigger] e.contacts[i]).username == name
                && e.contacts[i].alias == db.contacts[name].alias && (db.avatars.contains_key(name)
                ==> e.contacts[i].avatar == Some(db.avatars[name])) && (!db.avatars.contains_key(
                name,
            ) ==> e.contacts[i].avatar is None),
        e.exported_at == now,
        profile_in(db.meta) is Some ==> e.username == db.meta["username"@],
{
    let i = choose|i: int| 0 <= i < e.contacts.len() && (#[trigger] e.contacts[i]).username == name;
    assert(e.contacts[i].username == name);
}

/// An export holds every message of the conversations, as it is stored, and no
/// instruction.
pub proof fn an_export_holds_every_message(e: ExportView, db: DbView, now: i64, id: Seq<char>)
    requires
        is_everything(e, db, now),
        db.messages.contains_key(id),
        db.messages[id].id == id,
    ensures
        (exists|i: int| 0 <= i < e.messages.len() && (#[trigger] e.messages[i]) == db.messages[id])
            <==> !control(db.messages[id].kind),
{
    let m = db.messages[id];
    if !control(m.kind) {
        let i = choose|i: int| 0 <= i < e.messages.len() && (#[trigger] e.messages[i]).id == id;
        assert(e.messages[i] == m);
    }
    if exists|i: int| 0 <= i < e.messages.len() && (#[trigger] e.messages[i]) == m {
        let i = choose|i: int| 0 <= i < e.messages.len() && (#[trigger] e.messages[i]) == m;
        assert(!control(e.messages[i].kind));
    }
}

/// The picture of a contact comes with an import, where it is one; nobody else's
/// changes.
pub proof fn pictures_come_with_an_import(
    secret: Option<Seq<u8>>,
    avatars: Map<Seq<char>, Seq<char>>,
    list: Seq<ExportedContactView>,
    last: ExportedContactView,
    other: Seq<char>,
)
    requires
        other != last.username,
    ensures
        pictures_merged(secret, avatars, Seq::empty()) == avatars,
        ({
            let before = pictures_merged(secret, avatars, list);
            let after = pictures_merged(secret, avatars, list.push(last));
            &&& last.avatar is Some && picture(last.avatar->0) && can_seal(
                secret,
                encode_utf8(last.avatar->0).len(),
            ) ==> after.contains_key(last.username) && after[last.username] == last.avatar->0
            &&& last.avatar is None || !picture(last.avatar->0) ==> after == before
            &&& after.contains_key(other) == before.contains_key(other)
            &&& before.contains_key(other) ==> after[other] == before[other]
        }),
{
    assert(list.push(last).drop_last() =~= list);
}

} // verus!
