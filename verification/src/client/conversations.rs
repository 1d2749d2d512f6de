//! Conversations: exporting, importing, deleting and reading them.
#[allow(unused_imports)]
use vstd::utf8::encode_utf8;
use vstd::prelude::*;

#[allow(unused_imports)]
use crate::client::roster::picture_of;
#[allow(unused_imports)]
use crate::client::traffic::added_if_it_fits;
#[allow(unused_imports)]
use crate::client::{control, picture, ActorView};
use crate::client::{is_control, is_picture, Actor, ClientFault};
#[allow(unused_imports)]
use crate::db::contacts::is_contact_cache;
#[allow(unused_imports)]
use crate::db::messages::{
    all_read, conversation, is_id_list, is_message_list, unread, with_messages,
    without_conversation,
};
#[allow(unused_imports)]
use crate::db::meta::profile_in;
#[allow(unused_imports)]
use crate::db::{can_seal, DbView, MessageView};
use crate::db::StoredMessage;
use crate::export_json::{Export, ExportedContact, ExportedMessage};
#[allow(unused_imports)]
use crate::export_json::{export_json, ExportView, ExportedContactView};
#[allow(unused_imports)]
use crate::order::not_after;
#[allow(unused_imports)]
use crate::table::lemma_map_holds_the_entries;
#[allow(unused_imports)]
use crate::text::text_in;
use crate::transfer::TransferError;
#[allow(unused_imports)]
use crate::transfer::{export_refusal, imported};

verus! {

/// Whether a list holds each message that belongs in a conversation, once, the
/// oldest first.
pub open spec fn holds_the_messages(list: Seq<MessageView>, messages: Map<Seq<char>, MessageView>) -> bool {
    &&& forall|i: int|
        0 <= i < list.len() ==> messages.contains_key((#[trigger] list[i]).id) && list[i]
            == messages[list[i].id] && !control(list[i].kind)
    &&& forall|i: int, j: int|
        0 <= i < j < list.len() ==> (#[trigger] list[i]).id != (#[trigger] list[j]).id
            && list[i].created_at <= list[j].created_at
    &&& forall|id: Seq<char>| #[trigger]
        messages.contains_key(id) && !control(messages[id].kind) ==> exists|i: int|
            0 <= i < list.len() && (#[trigger] list[i]).id == id
}

/// Whether a list holds each cached contact once, with the name and the picture
/// that this device has of them.
pub open spec fn holds_the_contacts(list: Seq<ExportedContactView>, db: DbView) -> bool {
    &&& forall|i: int|
        0 <= i < list.len() ==> db.contacts.contains_key((#[trigger] list[i]).username)
            && list[i].alias == db.contacts[list[i].username].alias && list[i].avatar
            == picture_of(db, list[i].username)
    &&& forall|i: int, j: int|
        0 <= i < j < list.len() ==> (#[trigger] list[i]).username != (
        #[trigger] list[j]).username && not_after(list[i].username, list[j].username)
    &&& forall|name: Seq<char>| #[trigger]
        db.contacts.contains_key(name) ==> exists|i: int|
            0 <= i < list.len() && (#[trigger] list[i]).username == name
}

/// Whether an export is everything that this device holds.
pub open spec fn is_everything(e: ExportView, db: DbView, now: i64) -> bool {
    &&& e.username == match profile_in(db.meta) {
        Some(p) => p.username,
        None => Seq::empty(),
    }
    &&& e.exported_at == now
    &&& holds_the_messages(e.messages, db.messages)
    &&& holds_the_contacts(e.contacts, db)
}

/// The messages once some others were merged into them, one after another.
pub open spec fn merged(
    secret: Option<Seq<u8>>,
    messages: Map<Seq<char>, MessageView>,
    list: Seq<MessageView>,
) -> Map<Seq<char>, MessageView>
    decreases list.len(),
{
    if list.len() == 0 {
        messages
    } else {
        added_if_it_fits(secret, merged(secret, messages, list.drop_last()), list.last())
    }
}

/// The pictures once those of some contacts were merged into them: anything but
/// an inline image is left out.
pub open spec fn pictures_merged(
    secret: Option<Seq<u8>>,
    avatars: Map<Seq<char>, Seq<char>>,
    list: Seq<ExportedContactView>,
) -> Map<Seq<char>, Seq<char>>
    decreases list.len(),
{
    if list.len() == 0 {
        avatars
    } else {
        let front = pictures_merged(secret, avatars, list.drop_last());
        let last = list.last();
        match last.avatar {
            Some(avatar) => if picture(avatar) && can_seal(secret, encode_utf8(avatar).len()) {
                front.insert(last.username, avatar)
            } else {
                front
            },
            None => front,
        }
    }
}

/// The client once an export was merged in.
pub open spec fn after_import(a: ActorView, e: ExportView) -> ActorView {
    ActorView {
        db: DbView {
            messages: merged(a.secret, a.db.messages, e.messages),
            avatars: pictures_merged(a.secret, a.db.avatars, e.contacts),
            ..a.db
        },
        ..a
    }
}

/// Why a message cannot be deleted, if so: only our own can be withdrawn from the
/// other side.
pub open spec fn delete_refusal(db: DbView, id: Seq<char>, for_everyone: bool) -> Option<
    ClientFault,
> {
    if !db.messages.contains_key(id) {
        Some(ClientFault::MessageNotFound)
    } else if for_everyone && !db.messages[id].mine {
        Some(ClientFault::NotYourMessage)
    } else {
        None
    }
}

proof fn lemma_merging_grows(
    secret: Option<Seq<u8>>,
    messages: Map<Seq<char>, MessageView>,
    list: Seq<MessageView>,
)
    ensures
        forall|id: Seq<char>| #[trigger]
            messages.contains_key(id) ==> merged(secret, messages, list).contains_key(id)
                && merged(secret, messages, list)[id] == messages[id],
    decreases list.len(),
{
    if list.len() > 0 {
        lemma_merging_grows(secret, messages, list.drop_last());
    }
}

/// Importing leaves what is here alone: the local copy knows its own delivery
/// state, and the file is a snapshot of an older one.
pub proof fn importing_leaves_what_is_here_alone(a: ActorView, e: ExportView, id: Seq<char>)
    requires
        a.db.messages.contains_key(id),
    ensures
        after_import(a, e).db.messages.contains_key(id),
        after_import(a, e).db.messages[id] == a.db.messages[id],
        after_import(a, e).db.contacts == a.db.contacts,
        after_import(a, e).db.meta == a.db.meta,
{
    lemma_merging_grows(a.secret, a.db.messages, e.messages);
}

/// Importing the same file twice is importing it once.
pub proof fn importing_twice_is_importing_once(
    secret: Option<Seq<u8>>,
    messages: Map<Seq<char>, MessageView>,
    list: Seq<MessageView>,
)
    ensures
        merged(secret, merged(secret, messages, list), list) == merged(secret, messages, list),
{
    let once = merged(secret, messages, list);
    assert(list.take(list.len() as int) =~= list);
    lemma_all_there(secret, messages, list, list.len() as int);
    lemma_nothing_to_add(secret, once, list, list.len() as int);
}

/// The numbers on a list that are missing here, of the messages that can be sealed.
pub open spec fn missing_ids(
    secret: Option<Seq<u8>>,
    messages: Map<Seq<char>, MessageView>,
    list: Seq<MessageView>,
) -> Set<Seq<char>> {
    Set::new(|id: Seq<char>| !messages.contains_key(id) && is_listed(secret, list, id))
}

/// Whether a message that can be sealed has a number on a list.
pub open spec fn is_listed(secret: Option<Seq<u8>>, list: Seq<MessageView>, id: Seq<char>) -> bool {
    exists|i: int|
        0 <= i < list.len() && (#[trigger] list[i]).id == id && can_seal(
            secret,
            encode_utf8(list[i].text).len(),
        )
}

proof fn lemma_listed_last(secret: Option<Seq<u8>>, list: Seq<MessageView>, id: Seq<char>)
    requires
        list.len() > 0,
    ensures
        is_listed(secret, list, id) == (is_listed(secret, list.drop_last(), id) || (list.last().id
            == id && can_seal(secret, encode_utf8(list.last().text).len()))),
{
    let front = list.drop_last();
    if is_listed(secret, front, id) {
        let i = choose|i: int|
            0 <= i < front.len() && (#[trigger] front[i]).id == id && can_seal(
                secret,
                encode_utf8(front[i].text).len(),
            );
        assert(list[i] == front[i]);
    }
    if is_listed(secret, list, id) {
        let i = choose|i: int|
            0 <= i < list.len() && (#[trigger] list[i]).id == id && can_seal(
                secret,
                encode_utf8(list[i].text).len(),
            );
        if i < front.len() {
            assert(front[i] == list[i]);
        }
    }
    assert(list[list.len() - 1] == list.last());
}

proof fn lemma_merged_ids(
    secret: Option<Seq<u8>>,
    messages: Map<Seq<char>, MessageView>,
    list: Seq<MessageView>,
)
    requires
        messages.dom().finite(),
    ensures
        missing_ids(secret, messages, list).finite(),
        merged(secret, messages, list).dom() == messages.dom().union(
            missing_ids(secret, messages, list),
        ),
        merged(secret, messages, list).dom().finite(),
        merged(secret, messages, list).dom().len() == messages.dom().len() + missing_ids(
            secret,
            messages,
            list,
        ).len(),
    decreases list.len(),
{
    if list.len() == 0 {
        assert(missing_ids(secret, messages, list) =~= Set::<Seq<char>>::empty());
        assert(messages.dom().union(Set::<Seq<char>>::empty()) =~= messages.dom());
    } else {
        let front = list.drop_last();
        let last = list.last();
        lemma_merged_ids(secret, messages, front);
        let a = missing_ids(secret, messages, front);
        let b = missing_ids(secret, messages, list);
        assert forall|id: Seq<char>| #[trigger] b.contains(id) == (a.contains(id) || (id == last.id
            && !messages.contains_key(id) && can_seal(secret, encode_utf8(last.text).len()))) by {
            lemma_listed_last(secret, list, id);
        }
        if can_seal(secret, encode_utf8(last.text).len()) && !messages.contains_key(last.id) {
            assert(b =~= a.insert(last.id));
        } else {
            assert(b =~= a);
        }
        assert(merged(secret, messages, list).dom() =~= messages.dom().union(b));
    }
}

proof fn lemma_first_listed_is_stored(
    secret: Option<Seq<u8>>,
    messages: Map<Seq<char>, MessageView>,
    list: Seq<MessageView>,
    i: int,
)
    requires
        0 <= i < list.len(),
        !messages.contains_key(list[i].id),
        can_seal(secret, encode_utf8(list[i].text).len()),
        !is_listed(secret, list.take(i), list[i].id),
        messages.dom().finite(),
    ensures
        merged(secret, messages, list).contains_key(list[i].id),
        merged(secret, messages, list)[list[i].id] == list[i],
    decreases list.len(),
{
    let front = list.drop_last();
    if i == list.len() - 1 {
        assert(list.take(i) =~= front);
        lemma_merged_ids(secret, messages, front);
        assert(!missing_ids(secret, messages, front).contains(list[i].id));
    } else {
        assert(front.take(i) =~= list.take(i));
        lemma_first_listed_is_stored(secret, messages, front, i);
    }
}

/// Importing adds each message that is missing, once: as many come to be here as
/// there are numbers in the file that were not, each of them is stored as it stands
/// in the file first, what was here stays as it was, and importing the same file
/// again adds none.
pub proof fn importing_adds_what_is_missing(a: ActorView, e: ExportView)
    requires
        a.db.messages.dom().finite(),
    ensures
        ({
            let missing = missing_ids(a.secret, a.db.messages, e.messages);
            let after = after_import(a, e).db.messages;
            &&& missing.finite()
            &&& after.dom() == a.db.messages.dom().union(missing)
            &&& after.dom().len() == a.db.messages.dom().len() + missing.len()
            &&& forall|id: Seq<char>| #[trigger]
                a.db.messages.contains_key(id) ==> after[id] == a.db.messages[id]
            &&& forall|i: int|
                0 <= i < e.messages.len() && !a.db.messages.contains_key(
                    (#[trigger] e.messages[i]).id,
                ) && can_seal(a.secret, encode_utf8(e.messages[i].text).len()) && !is_listed(
                    a.secret,
                    e.messages.take(i),
                    e.messages[i].id,
                ) ==> after[e.messages[i].id] == e.messages[i]
            &&& missing_ids(a.secret, after, e.messages) == Set::<Seq<char>>::empty()
            &&& after_import(after_import(a, e), e).db.messages == after
        }),
{
    let after = after_import(a, e).db.messages;
    lemma_merged_ids(a.secret, a.db.messages, e.messages);
    lemma_merging_grows(a.secret, a.db.messages, e.messages);
    assert forall|i: int|
        0 <= i < e.messages.len() && !a.db.messages.contains_key((#[trigger] e.messages[i]).id)
            && can_seal(a.secret, encode_utf8(e.messages[i].text).len()) && !is_listed(
            a.secret,
            e.messages.take(i),
            e.messages[i].id,
        ) implies after[e.messages[i].id] == e.messages[i] by {
        lemma_first_listed_is_stored(a.secret, a.db.messages, e.messages, i);
    }
    assert forall|id: Seq<char>| !missing_ids(a.secret, after, e.messages).contains(id) by {
        if is_listed(a.secret, e.messages, id) && !a.db.messages.contains_key(id) {
            assert(missing_ids(a.secret, a.db.messages, e.messages).contains(id));
        }
    }
    assert(missing_ids(a.secret, after, e.messages) =~= Set::<Seq<char>>::empty());
    importing_twice_is_importing_once(a.secret, a.db.messages, e.messages);
}

/// The messages that belong in a conversation.
pub open spec fn conversations_of(messages: Map<Seq<char>, MessageView>) -> Map<
    Seq<char>,
    MessageView,
> {
    Map::new(
        |id: Seq<char>| messages.contains_key(id) && !control(messages[id].kind),
        |id: Seq<char>| messages[id],
    )
}

/// Moving to another device keeps every conversation: what one device exports, a
/// device without messages imports as it was, as long as it can seal it.
pub proof fn an_export_restores_the_conversations(
    secret: Option<Seq<u8>>,
    from: DbView,
    e: ExportView,
    now: i64,
)
    requires
        is_everything(e, from, now),
        forall|i: int|
            0 <= i < e.messages.len() ==> can_seal(
                secret,
                encode_utf8((#[trigger] e.messages[i]).text).len(),
            ),
    ensures
        merged(secret, Map::empty(), e.messages) == conversations_of(from.messages),
{
    let list = e.messages;
    lemma_merged_is_the_list(secret, list, list.len() as int);
    assert(list.take(list.len() as int) =~= list);
    let all = merged(secret, Map::empty(), list);
    let goal = conversations_of(from.messages);
    assert forall|id: Seq<char>| all.contains_key(id) == goal.contains_key(id) && (
    all.contains_key(id) ==> all[id] == goal[id]) by {
        if all.contains_key(id) {
            let i = choose|i: int| 0 <= i < list.len() && (#[trigger] list[i]).id == id;
            assert(all[list[i].id] == list[i]);
        }
        if goal.contains_key(id) {
            let i = choose|i: int| 0 <= i < list.len() && (#[trigger] list[i]).id == id;
            assert(all.contains_key(list[i].id));
        }
    }
    assert(all =~= goal);
}

proof fn lemma_merged_is_the_list(secret: Option<Seq<u8>>, list: Seq<MessageView>, n: int)
    requires
        0 <= n <= list.len(),
        forall|i: int|
            0 <= i < list.len() ==> can_seal(
                secret,
                encode_utf8((#[trigger] list[i]).text).len(),
            ),
        forall|i: int, j: int|
            0 <= i < j < list.len() ==> (#[trigger] list[i]).id != (#[trigger] list[j]).id,
    ensures
        forall|i: int|
            0 <= i < n ==> merged(secret, Map::empty(), list.take(n)).contains_key(
                (#[trigger] list[i]).id,
            ) && merged(secret, Map::empty(), list.take(n))[list[i].id] == list[i],
        forall|id: Seq<char>| #[trigger]
            merged(secret, Map::empty(), list.take(n)).contains_key(id) ==> exists|i: int|
                0 <= i < n && (#[trigger] list[i]).id == id,
    decreases n,
{
    if n > 0 {
        lemma_merged_is_the_list(secret, list, n - 1);
        assert(list.take(n).drop_last() =~= list.take(n - 1));
        assert(list.take(n).last() == list[n - 1]);
        let was = merged(secret, Map::empty(), list.take(n - 1));
        let now = merged(secret, Map::empty(), list.take(n));
        if was.contains_key(list[n - 1].id) {
            let i = choose|i: int| 0 <= i < n - 1 && (#[trigger] list[i]).id == list[n - 1].id;
            assert(list[i].id != list[n - 1].id);
        }
        assert(now == was.insert(list[n - 1].id, list[n - 1]));
        assert forall|i: int| 0 <= i < n implies now.contains_key((#[trigger] list[i]).id)
            && now[list[i].id] == list[i] by {
            if i < n - 1 {
                assert(list[i].id != list[n - 1].id);
            }
        }
        assert forall|id: Seq<char>| #[trigger] now.contains_key(id) implies exists|i: int|
            0 <= i < n && (#[trigger] list[i]).id == id by {
            if was.contains_key(id) {
                let i = choose|i: int| 0 <= i < n - 1 && (#[trigger] list[i]).id == id;
                assert(list[i].id == id);
            } else {
                assert(list[n - 1].id == id);
            }
        }
    }
}

proof fn lemma_all_there(
    secret: Option<Seq<u8>>,
    messages: Map<Seq<char>, MessageView>,
    list: Seq<MessageView>,
    n: int,
)
    requires
        0 <= n <= list.len(),
    ensures
        forall|i: int|
            0 <= i < n && can_seal(secret, encode_utf8((#[trigger] list[i]).text).len())
                ==> merged(secret, messages, list.take(n)).contains_key(list[i].id),
    decreases n,
{
    if n > 0 {
        lemma_all_there(secret, messages, list, n - 1);
        assert(list.take(n).drop_last() =~= list.take(n - 1));
        assert(list.take(n).last() == list[n - 1]);
    }
}

proof fn lemma_nothing_to_add(
    secret: Option<Seq<u8>>,
    messages: Map<Seq<char>, MessageView>,
    list: Seq<MessageView>,
    n: int,
)
    requires
        0 <= n <= list.len(),
        forall|i: int|
            0 <= i < list.len() && can_seal(secret, encode_utf8((#[trigger] list[i]).text).len())
                ==> messages.contains_key(list[i].id),
    ensures
        merged(secret, messages, list.take(n)) == messages,
    decreases n,
{
    if n > 0 {
        lemma_nothing_to_add(secret, messages, list, n - 1);
        assert(list.take(n).drop_last() =~= list.take(n - 1));
        assert(list.take(n).last() == list[n - 1]);
    }
}

impl Actor {
    /// Packs up the messages that belong in a conversation.
    fn gather_messages(&self) -> (list: Vec<ExportedMessage>)
        requires
            self.wf(),
        ensures
            holds_the_messages(list@.map_values(|m: ExportedMessage| m@), self@.db.messages),
    {
        let all = self.db.all_messages();
        let mut list: Vec<ExportedMessage> = Vec::new();
        let ghost mut from: Seq<int> = Seq::empty();
        let mut i: usize = 0;
        while i < all.len()
            invariant
                is_message_list(all@, self@.db.messages, |m: MessageView| true),
                i <= all@.len(),
                from.len() == list@.len(),
                forall|j: int|
                    0 <= j < list@.len() ==> 0 <= #[trigger] from[j] < i && all@[from[j]]@
                        == list@[j]@ && !control(list@[j]@.kind),
                forall|j: int, k: int|
                    0 <= j < k < list@.len() ==> (#[trigger] from[j]) < (#[trigger] from[k]),
                forall|p: int|
                    0 <= p < i && !control((#[trigger] all@[p])@.kind) ==> exists|j: int|
                        0 <= j < list@.len() && (#[trigger] list@[j])@ == all@[p]@,
            decreases all@.len() - i,
        {
            if !is_control(&all[i].kind) {
                let ghost was = list@;
                let message = ExportedMessage::from(&all[i]);
                assert(message@ == all@[i as int]@);
                list.push(message);
                proof {
                    from = from.push(i as int);
                    assert forall|p: int|
                        0 <= p < i + 1 && !control((#[trigger] all@[p])@.kind) implies exists|j: int|
                        0 <= j < list@.len() && (#[trigger] list@[j])@ == all@[p]@ by {
                        if p < i {
                            let j = choose|j: int|
                                0 <= j < was.len() && (#[trigger] was[j])@ == all@[p]@;
                            assert(list@[j] == was[j]);
                        } else {
                            assert(list@[was.len() as int]@ == all@[p]@);
                        }
                    }
                }
            }
            i = i + 1;
        }
        proof {
            let views = list@.map_values(|m: ExportedMessage| m@);
            let messages = self@.db.messages;
            assert forall|j: int| 0 <= j < views.len() implies messages.contains_key(
                (#[trigger] views[j]).id,
            ) && views[j] == messages[views[j].id] && !control(views[j].kind) by {
                let p = from[j];
                assert(all@[p]@ == views[j]);
            }
            assert forall|j: int, k: int| 0 <= j < k < views.len() implies (#[trigger] views[j]).id
                != (#[trigger] views[k]).id && views[j].created_at <= views[k].created_at by {
                let p = from[j];
                let q = from[k];
                assert(all@[p]@.id != all@[q]@.id);
            }
            assert forall|id: Seq<char>| #[trigger]
                messages.contains_key(id) && !control(messages[id].kind) implies exists|j: int|
                0 <= j < views.len() && (#[trigger] views[j]).id == id by {
                let p = choose|p: int| 0 <= p < all@.len() && (#[trigger] all@[p])@.id == id;
                let j = choose|j: int| 0 <= j < list@.len() && (#[trigger] list@[j])@ == all@[p]@;
                assert(views[j].id == id);
            }
        }
        list
    }

    /// Packs up the contacts, with their pictures.
    fn gather_contacts(&self) -> (list: Vec<ExportedContact>)
        requires
            self.wf(),
        ensures
            holds_the_contacts(list@.map_values(|c: ExportedContact| c@), self@.db),
    {
        let rows = self.db.contacts();
        let mut list: Vec<ExportedContact> = Vec::new();
        let mut i: usize = 0;
        while i < rows.len()
            invariant
                self.wf(),
                is_contact_cache(rows@, self@.db.contacts),
                i <= rows@.len(),
                list@.len() == i,
                forall|j: int|
                    0 <= j < i ==> (#[trigger] list@[j])@ == (ExportedContactView {
                        username: rows@[j].username@,
                        alias: rows@[j].alias@,
                        avatar: picture_of(self@.db, rows@[j].username@),
                    }),
            decreases rows@.len() - i,
        {
            let avatar = self.db.contact_avatar(&rows[i].username);
            list.push(
                ExportedContact {
                    username: rows[i].username.clone(),
                    alias: rows[i].alias.clone(),
                    avatar,
                },
            );
            i = i + 1;
        }
        proof {
            let views = list@.map_values(|c: ExportedContact| c@);
            let db = self@.db;
            assert forall|j: int| 0 <= j < views.len() implies db.contacts.contains_key(
                (#[trigger] views[j]).username,
            ) && views[j].alias == db.contacts[views[j].username].alias && views[j].avatar
                == picture_of(db, views[j].username) && views[j].username == rows@[j].username@ by {
                assert(views[j] == list@[j]@);
                assert(db.contacts.contains_key(rows@[j].username@));
            }
            assert forall|j: int, k: int| 0 <= j < k < views.len() implies (
            #[trigger] views[j]).username != (#[trigger] views[k]).username && not_after(
                views[j].username,
                views[k].username,
            ) by {
                assert(rows@[j].username@ != rows@[k].username@);
            }
            assert forall|name: Seq<char>| #[trigger]
                db.contacts.contains_key(name) implies exists|j: int|
                0 <= j < views.len() && (#[trigger] views[j]).username == name by {
                let j = choose|j: int|
                    0 <= j < rows@.len() && (#[trigger] rows@[j]).username@ == name;
                assert(views[j].username == name);
            }
        }
        list
    }

    /// Everything that this device holds, as it is exported.
    pub fn gather_export(&self, now: i64) -> (e: Export)
        requires
            self.wf(),
        ensures
            is_everything(e@, self@.db, now),
    {
        let username = match self.db.profile() {
            Some(p) => p.username,
            None => String::new(),
        };
        proof {
            if profile_in(self@.db.meta) is None {
                assert(username@ =~= Seq::<char>::empty());
            }
        }
        Export {
            username,
            exported_at: now,
            messages: self.gather_messages(),
            contacts: self.gather_contacts(),
        }
    }

    /// Packs every conversation on this device into an encrypted file.
    ///
    /// The server keeps no history, so this is the only way conversations move to
    /// another device, and the only thing standing between the file and whoever
    /// picks it up is the password.
    pub fn export_conversations(&self, password: &str, now: i64) -> (file: Result<
        Vec<u8>,
        TransferError,
    >)
        requires
            self.wf(),
        ensures
            exists|e: ExportView| #[trigger]
                is_everything(e, self@.db, now) && match export_refusal(
                    encode_utf8(export_json(e)),
                    password@,
                ) {
                    Some(fault) => file == Err::<Vec<u8>, TransferError>(fault),
                    None => file is Ok && imported(file->Ok_0@, password@) == Ok::<
                        ExportView,
                        TransferError,
                    >(e),
                },
    {
        let e = self.gather_export(now);
        assert(is_everything(e@, self@.db, now));
        crate::transfer::export(&e, password)
    }

    /// Merges messages, leaving alone what is here.
    fn merge_messages(&mut self, list: &Vec<ExportedMessage>)
        requires
            old(self).wf(),
        ensures
            final(self).wf(),
            final(self)@ == (ActorView {
                db: with_messages(
                    old(self)@.db,
                    merged(
                        old(self)@.secret,
                        old(self)@.db.messages,
                        list@.map_values(|m: ExportedMessage| m@),
                    ),
                ),
                ..old(self)@
            }),
    {
        let ghost before = self@;
        let ghost views = list@.map_values(|m: ExportedMessage| m@);
        let mut i: usize = 0;
        assert(views.take(0) =~= Seq::<MessageView>::empty());
        while i < list.len()
            invariant
                self.wf(),
                views == list@.map_values(|m: ExportedMessage| m@),
                i <= list@.len(),
                self@ == (ActorView {
                    db: with_messages(
                        before.db,
                        merged(before.secret, before.db.messages, views.take(i as int)),
                    ),
                    ..before
                }),
            decreases list@.len() - i,
        {
            let m = &list[i];
            let stored = StoredMessage {
                id: m.id.clone(),
                contact: m.contact.clone(),
                mine: m.mine,
                kind: m.kind.clone(),
                text: m.text.clone(),
                state: m.state.clone(),
                delivered_at: m.delivered_at,
                read_at: m.read_at,
                created_at: m.created_at,
            };
            proof {
                assert(views.take(i + 1).drop_last() =~= views.take(i as int));
                assert(views.take(i + 1).last() == stored@);
            }
            let _ = self.db.add_message(&stored);
            i = i + 1;
        }
        assert(views.take(views.len() as int) =~= views);
    }

    /// Merges pictures, so an import on a device that has never spoken to these
    /// people still shows something recognisable.
    fn merge_pictures(&mut self, list: &Vec<ExportedContact>)
        requires
            old(self).wf(),
        ensures
            final(self).wf(),
            final(self)@ == (ActorView {
                db: DbView {
                    avatars: pictures_merged(
                        old(self)@.secret,
                        old(self)@.db.avatars,
                        list@.map_values(|c: ExportedContact| c@),
                    ),
                    ..old(self)@.db
                },
                ..old(self)@
            }),
    {
        let ghost before = self@;
        let ghost views = list@.map_values(|c: ExportedContact| c@);
        let mut i: usize = 0;
        assert(views.take(0) =~= Seq::<ExportedContactView>::empty());
        while i < list.len()
            invariant
                self.wf(),
                views == list@.map_values(|c: ExportedContact| c@),
                i <= list@.len(),
                self@ == (ActorView {
                    db: DbView {
                        avatars: pictures_merged(
                            before.secret,
                            before.db.avatars,
                            views.take(i as int),
                        ),
                        ..before.db
                    },
                    ..before
                }),
            decreases list@.len() - i,
        {
            proof {
                assert(views.take(i + 1).drop_last() =~= views.take(i as int));
                assert(views.take(i + 1).last() == list@[i as int]@);
            }
            if let Some(avatar) = &list[i].avatar {
                if is_picture(avatar) {
                    let _ = self.db.set_contact_avatar(
                        &list[i].username,
                        Some(avatar.as_str()),
                    );
                }
            }
            i = i + 1;
        }
        assert(views.take(views.len() as int) =~= views);
    }

    /// How many messages there are.
    fn message_count(&self) -> (n: usize)
        requires
            self.wf(),
        ensures
            n == self@.db.messages.dom().len(),
            self@.db.messages.dom().finite(),
    {
        proof {
            lemma_map_holds_the_entries(self.db.messages.entries());
            assert(self@.db.messages.dom() =~= self.db.messages@.dom());
        }
        self.db.messages.len()
    }

    /// Merges an exported file into this device, returning how many messages were
    /// new.
    pub fn import_conversations(&mut self, bytes: &[u8], password: &str) -> (added: Result<
        usize,
        TransferError,
    >)
        requires
            old(self).wf(),
        ensures
            final(self).wf(),
            match imported(bytes@, password@) {
                Err(e) => added == Err::<usize, TransferError>(e) && final(self)@ == old(self)@,
                Ok(e) => {
                    &&& added is Ok
                    &&& final(self)@ == after_import(old(self)@, e)
                    &&& added->Ok_0 == missing_ids(
                        old(self)@.secret,
                        old(self)@.db.messages,
                        e.messages,
                    ).len()
                },
            },
    {
        let found = match crate::transfer::import(bytes, password) {
            Ok(found) => found,
            Err(e) => {
                return Err(e);
            },
        };
        let ghost start = self@;
        let before: usize = self.message_count();
        self.merge_messages(&found.messages);
        self.merge_pictures(&found.contacts);
        let after: usize = self.message_count();
        proof {
            lemma_merged_ids(start.secret, start.db.messages, found@.messages);
        }
        Ok(after - before)
    }

    /// Our own messages of a conversation, which are withdrawn from the other side
    /// before anything is removed here: once it is gone locally there is nothing
    /// left to name. Theirs are theirs.
    pub fn withdrawals(&self, contact: &str) -> (ids: Vec<String>)
        requires
            self.wf(),
        ensures
            is_id_list(
                ids@,
                self@.db.messages,
                |m: MessageView| m.contact == contact@ && m.mine,
            ),
    {
        let history = self.db.history(contact);
        let ghost messages = self@.db.messages;
        let mut ids: Vec<String> = Vec::new();
        let ghost mut from: Seq<int> = Seq::empty();
        let mut i: usize = 0;
        while i < history.len()
            invariant
                messages == self@.db.messages,
                is_message_list(history@, messages, |m: MessageView| m.contact == contact@),
                i <= history@.len(),
                from.len() == ids@.len(),
                forall|j: int|
                    0 <= j < ids@.len() ==> 0 <= #[trigger] from[j] < i && history@[from[j]]@.id
                        == ids@[j]@ && history@[from[j]]@.mine,
                forall|j: int, k: int|
                    0 <= j < k < ids@.len() ==> (#[trigger] from[j]) < (#[trigger] from[k]),
                forall|p: int|
                    0 <= p < i && (#[trigger] history@[p])@.mine ==> exists|j: int|
                        0 <= j < ids@.len() && (#[trigger] ids@[j])@ == history@[p]@.id,
            decreases history@.len() - i,
        {
            if history[i].mine {
                let ghost was = ids@;
                ids.push(history[i].id.clone());
                proof {
                    from = from.push(i as int);
                    assert forall|p: int|
                        0 <= p < i + 1 && (#[trigger] history@[p])@.mine implies exists|j: int|
                        0 <= j < ids@.len() && (#[trigger] ids@[j])@ == history@[p]@.id by {
                        if p < i {
                            let j = choose|j: int|
                                0 <= j < was.len() && (#[trigger] was[j])@ == history@[p]@.id;
                            assert(ids@[j] == was[j]);
                        } else {
                            assert(ids@[was.len() as int]@ == history@[p]@.id);
                        }
                    }
                }
            }
            i = i + 1;
        }
        proof {
            assert forall|j: int| 0 <= j < ids@.len() implies messages.contains_key(
                (#[trigger] ids@[j])@,
            ) && messages[ids@[j]@].contact == contact@ && messages[ids@[j]@].mine by {
                let p = from[j];
                assert(messages.contains_key(history@[p]@.id));
            }
            assert forall|j: int, k: int| 0 <= j < k < ids@.len() implies (#[trigger] ids@[j])@ != (
            #[trigger] ids@[k])@ by {
                let p = from[j];
                let q = from[k];
                assert(history@[p]@.id != history@[q]@.id);
            }
            assert forall|id: Seq<char>| #[trigger]
                messages.contains_key(id) && (messages[id].contact == contact@
                    && messages[id].mine) implies exists|j: int|
                0 <= j < ids@.len() && (#[trigger] ids@[j])@ == id by {
                let p = choose|p: int| 0 <= p < history@.len() && (#[trigger] history@[p])@.id == id;
                assert(history@[p]@ == messages[id]);
            }
        }
        ids
    }

    /// Wipes a whole conversation here, and tells how many messages that were.
    pub fn delete_conversation(&mut self, contact: &str) -> (count: usize)
        requires
            old(self).wf(),
        ensures
            final(self).wf(),
            final(self)@ == (ActorView {
                db: with_messages(
                    old(self)@.db,
                    without_conversation(old(self)@.db.messages, contact@),
                ),
                ..old(self)@
            }),
            count == conversation(old(self)@.db.messages, contact@).len(),
    {
        self.db.delete_conversation(contact)
    }

    /// Deletes a message here, and names who is to be told when it goes for
    /// everyone.
    pub fn delete_message(&mut self, id: &str, for_everyone: bool) -> (tell: Result<
        Option<String>,
        ClientFault,
    >)
        requires
            old(self).wf(),
        ensures
            final(self).wf(),
            match delete_refusal(old(self)@.db, id@, for_everyone) {
                Some(fault) => tell == Err::<Option<String>, ClientFault>(fault) && final(self)@
                    == old(self)@,
                None => {
                    &&& tell is Ok
                    &&& text_in(tell->Ok_0) == (if for_everyone {
                        Some(old(self)@.db.messages[id@].contact)
                    } else {
                        None
                    })
                    &&& final(self)@ == (ActorView {
                        db: with_messages(old(self)@.db, old(self)@.db.messages.remove(id@)),
                        ..old(self)@
                    })
                },
            },
    {
        let (contact, mine) = match self.db.message_peer(id) {
            Some(peer) => peer,
            None => {
                return Err(ClientFault::MessageNotFound);
            },
        };
        if for_everyone && !mine {
            return Err(ClientFault::NotYourMessage);
        }
        self.db.delete_message(id);
        if for_everyone {
            Ok(Some(contact))
        } else {
            Ok(None)
        }
    }

    /// Reports the unread messages from a contact as read, and names them for
    /// their senders to be told. A failed receipt is not worth failing the read
    /// for: they are marked here either way.
    pub fn mark_read(&mut self, contact: &str, now: i64) -> (ids: Result<Vec<String>, ClientFault>)
        requires
            old(self).wf(),
        ensures
            final(self).wf(),
            !old(self)@.session ==> ids == Err::<Vec<String>, ClientFault>(ClientFault::NoSession)
                && final(self)@ == old(self)@,
            old(self)@.session ==> {
                &&& ids is Ok
                &&& is_id_list(
                    ids->Ok_0@,
                    old(self)@.db.messages,
                    |m: MessageView| unread(m, contact@),
                )
                &&& final(self)@ == (ActorView {
                    db: with_messages(
                        old(self)@.db,
                        all_read(old(self)@.db.messages, contact@, now),
                    ),
                    ..old(self)@
                })
            },
    {
        if !self.session {
            return Err(ClientFault::NoSession);
        }
        Ok(self.db.mark_conversation_read(contact, now))
    }
}

} // verus!
