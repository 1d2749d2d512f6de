//! What holds of messages, receipts, archives and published keys.
#[allow(unused_imports)]
use vstd::utf8::encode_utf8;
use vstd::prelude::*;

#[allow(unused_imports)]
use crate::server::errors::ApiError;
#[allow(unused_imports)]
use crate::server::history::{
    after_archive, archive_refusal, entries_kept, is_archive_of, ArchivedEntry,
};
#[allow(unused_imports)]
use crate::server::keys::{
    account_published, after_upload, bundle_handed_out, bundle_refusal, is_prekey_of, kind_named,
    kind_text, popped, prekeys_added, upload_refusal, Bundle, PrekeyUpload, UploadKeysRequest,
};
#[allow(unused_imports)]
use crate::server::limits::passes;
#[allow(unused_imports)]
use crate::server::live::{notice_to, notices, OutMessage, Push, PushView, ReceiptState};
#[allow(unused_imports)]
use crate::server::messages::{
    ack_notices, after_ack, bytes_held, is_backlog, mailbox_full, queued, send_refusal, sent,
    unread_by, waiting, waits_for, Sent,
};
#[allow(unused_imports)]
use crate::server::store::{
    link_of, sound, without_prekeys_of, AccountView, ArchivedView, DeliveryView, LinkState,
    PrekeyKind, PrekeyView, QueuedView, Store, World,
};
#[allow(unused_imports)]
use crate::text::text_in;

verus! {

/// A message that was taken reaches its recipient as it was sent: whoever has a
/// stream is told of it there, and the backlog of the next stream holds it, with
/// its sender, its body and the moment it came. No other message is touched.
pub proof fn a_message_reaches_its_recipient_as_it_was_sent(
    before: World,
    after: World,
    me: Seq<char>,
    recipient: Seq<char>,
    body: Seq<char>,
    id: Seq<char>,
    now: i64,
    reply: Result<Sent, ApiError>,
    list: Seq<OutMessage>,
    other: Seq<char>,
)
    requires
        sent(before, after, me, recipient, body, id, now, reply),
        reply is Ok,
        is_backlog(list, after.store.messages, recipient),
        other != reply->Ok_0.id@,
    ensures
        exists|i: int|
            0 <= i < list.len() && (#[trigger] list[i]).id@ == reply->Ok_0.id@ && list[i].sender@
                == me && list[i].body@ == body && list[i].created_at == now,
        !before.live.contains_key(recipient) ==> reply->Ok_0.notices@.len() == 0,
        before.live.contains_key(recipient) ==> {
            let list = reply->Ok_0.notices@;
            &&& list.len() == 1
            &&& list[0].to@ == recipient
            &&& list[0].listener == before.live[recipient]
            &&& list[0].push is Message
            &&& list[0].push->Message_0.id@ == reply->Ok_0.id@
            &&& list[0].push->Message_0.sender@ == me
            &&& list[0].push->Message_0.body@ == body
            &&& list[0].push->Message_0.created_at == now
        },
        after.store.messages.contains_key(other) == before.store.messages.contains_key(other),
        after.store.messages.contains_key(other) ==> after.store.messages[other]
            == before.store.messages[other],
        after.store == (Store { messages: after.store.messages, ..before.store }),
        after.live == before.live,
{
    let messages = after.store.messages;
    assert(messages.contains_key(id) && messages[id].recipient == recipient);
    let i = choose|i: int| 0 <= i < list.len() && (#[trigger] list[i])@.id == id;
    assert(list[i]@.id == id);
    assert(list[i].id@ == id);
    if before.live.contains_key(recipient) {
        let told = reply->Ok_0.notices@;
        assert(notices(told).len() == 1);
        assert(notices(told)[0] == told[0]@);
    } else {
        assert(notices(reply->Ok_0.notices@).len() == 0);
    }
}

/// A backlog is in order: nothing is in it twice, what came earlier stands
/// earlier, and everything in it waits for its reader.
pub proof fn a_backlog_is_in_order(
    list: Seq<OutMessage>,
    messages: Map<Seq<char>, QueuedView>,
    me: Seq<char>,
    i: int,
    j: int,
)
    requires
        is_backlog(list, messages, me),
        0 <= i < j < list.len(),
    ensures
        list[i].id@ != list[j].id@,
        list[i].created_at <= list[j].created_at,
        messages.contains_key(list[i].id@),
        messages[list[i].id@].recipient == me,
        messages[list[j].id@].recipient == me,
{
    assert(list[i]@.id != list[j]@.id);
}

/// A message is taken exactly where its recipient has an account, accepted the
/// sender, and has room: fewer than 10,000 messages, and 256 MiB with this one.
pub proof fn a_message_is_taken_where_it_may_be(
    w: World,
    me: Seq<char>,
    recipient: Seq<char>,
    body: Seq<char>,
    now: i64,
)
    requires
        passes(w, "send:"@ + me, 120, 60_000, now),
    ensures
        ({
            let there = w.store.accounts.contains_key(recipient);
            let open = w.store.links.contains_key((recipient, me)) && w.store.links[(
                recipient,
                me,
            )].state == LinkState::Accepted;
            let ids = waiting(w.store.messages, recipient);
            let room = ids.len() < 10_000 && bytes_held(w.store.messages, ids) + encode_utf8(
                body,
            ).len() <= 268_435_456;
            let refusal = send_refusal(w, me, recipient, body, now);
            &&& refusal is None <==> there && open && room
            &&& !there ==> refusal == Some(ApiError::NotFound)
            &&& there && !open ==> refusal == Some(ApiError::NotAContact)
            &&& there && open && !room ==> refusal == Some(ApiError::MailboxFull)
        }),
{
}

/// What waits for an account are the messages to it.
pub proof fn what_waits_is_what_was_sent(
    messages: Map<Seq<char>, QueuedView>,
    recipient: Seq<char>,
    id: Seq<char>,
)
    ensures
        waiting(messages, recipient).contains(id) == (messages.contains_key(id)
            && messages[id].recipient == recipient),
        bytes_held(messages, Set::empty()) == 0,
{
    vstd::set::fold::lemma_fold_empty(
        0int,
        |sum: int, id: Seq<char>| sum + encode_utf8(messages[id].body).len(),
    );
}

/// The receipts of a message go to whoever sent it: that it was delivered, at the
/// moment it was, and later, by the same recipient, that it was read.
pub proof fn receipts_go_to_the_sender(
    w: World,
    me: Seq<char>,
    id: Seq<char>,
    now: i64,
    other: Seq<char>,
)
    requires
        waits_for(w.store, id, me),
        0 <= now <= i64::MAX - 30 * 86_400_000,
        other != id,
    ensures
        ({
            let sender = w.store.messages[id].sender;
            let after = after_ack(w, me, id, false, now);
            let told = ack_notices(w, me, id, false, now);
            &&& w.live.contains_key(sender) ==> told.len() == 1 && told[0].to == sender
                && told[0].listener == w.live[sender] && told[0].push == (PushView::Receipt {
                id,
                state: ReceiptState::Delivered,
                at: now,
            })
            &&& !w.live.contains_key(sender) ==> told.len() == 0
            &&& !after.store.messages.contains_key(id)
            &&& after.store.deliveries.contains_key(id)
            &&& after.store.deliveries[id].sender == sender
            &&& after.store.deliveries[id].recipient == me
            &&& after.store.deliveries[id].created_at == now
            &&& unread_by(after.store, id, me)
            &&& after.store.deliveries.contains_key(other) == (
            w.store.deliveries.contains_key(other) && w.store.deliveries[other].created_at >= now
                - 2_592_000_000)
            &&& after.store.deliveries.contains_key(other) ==> after.store.deliveries[other]
                == w.store.deliveries[other]
            &&& after.store.accounts == w.store.accounts && after.store.links == w.store.links
            &&& after.live == w.live
        }),
{
}

/// Nobody but its recipient reports a message as read.
pub proof fn only_the_recipient_reads(store: Store, id: Seq<char>, me: Seq<char>, other: Seq<char>)
    requires
        unread_by(store, id, me),
        other != me,
    ensures
        !unread_by(store, id, other),
        store.deliveries.contains_key(id),
        store.deliveries[id].recipient == me,
{
}

/// What was archived is listed as it was archived, under its own number; putting
/// it again replaces it, and nothing else of the archive changes.
pub proof fn an_archive_gives_back_what_was_put(
    w: World,
    me: Seq<char>,
    id: Seq<char>,
    blob: Seq<char>,
    now: i64,
    list: Seq<ArchivedEntry>,
    who: Seq<char>,
    other: Seq<char>,
)
    requires
        archive_refusal(w, me, id, now) is None,
        is_archive_of(list, after_archive(w, me, id, blob, now).store.archive, me),
        !(who == me && other == id),
    ensures
        exists|i: int| 0 <= i < list.len() && (#[trigger] list[i]).id@ == id && list[i].blob@ == blob,
        ({
            let after = after_archive(w, me, id, blob, now).store;
            &&& after.archive.contains_key((who, other)) == w.store.archive.contains_key(
                (who, other),
            )
            &&& after.archive.contains_key((who, other)) ==> after.archive[(who, other)]
                == w.store.archive[(who, other)]
            &&& !w.store.archive.contains_key((me, id)) ==> after.archive[(me, id)].created_at
                == now
            &&& w.store.archive.contains_key((me, id)) ==> after.archive[(me, id)].created_at
                == w.store.archive[(me, id)].created_at
            &&& after == (Store { archive: after.archive, ..w.store })
        }),
{
    let archive = after_archive(w, me, id, blob, now).store.archive;
    assert(archive.contains_key((me, id)));
    let i = choose|i: int| 0 <= i < list.len() && (#[trigger] list[i]).id@ == id;
    assert(list[i].id@ == id);
}

/// An archive lists the account's own entries, each once and the oldest first.
pub proof fn an_archive_is_in_order(
    list: Seq<ArchivedEntry>,
    archive: Map<(Seq<char>, Seq<char>), ArchivedView>,
    me: Seq<char>,
    i: int,
    j: int,
)
    requires
        is_archive_of(list, archive, me),
        0 <= i < j < list.len(),
    ensures
        list[i].id@ != list[j].id@,
        archive.contains_key((me, list[i].id@)),
        list[i].blob@ == archive[(me, list[i].id@)].blob,
        archive[(me, list[i].id@)].created_at <= archive[(me, list[j].id@)].created_at,
{
}

/// An entry is taken as long as its number has at most 128 bytes, there were fewer
/// than 600 within a minute, and there is room: 200,000 entries, unless it replaces
/// one. An entry that is refused changes nothing.
pub proof fn an_entry_is_taken_where_there_is_room(
    w: World,
    me: Seq<char>,
    id: Seq<char>,
    blob: Seq<char>,
    now: i64,
)
    ensures
        archive_refusal(w, me, id, now) is None <==> {
            &&& encode_utf8(id).len() <= 128
            &&& passes(w, "archive:"@ + me, 600, 60_000, now)
            &&& w.store.archive.contains_key((me, id)) || entries_kept(w.store.archive, me).len()
                < 200_000
        },
        archive_refusal(w, me, id, now) is Some ==> after_archive(w, me, id, blob, now).store
            == w.store,
        entries_kept(w.store.archive, me).contains((me, id)) == w.store.archive.contains_key(
            (me, id),
        ),
{
}

proof fn lemma_keys_added(store: Store, me: Seq<char>, list: Seq<PrekeyUpload>, id: u64)
    requires
        store.next_prekey + list.len() <= u64::MAX,
    ensures
        prekeys_added(store, me, list).next_prekey == store.next_prekey + list.len(),
        prekeys_added(store, me, list).accounts == store.accounts,
        prekeys_added(store, me, list).prekeys.contains_key(id) <==> (store.next_prekey <= id
            < store.next_prekey + list.len()) || store.prekeys.contains_key(id),
        store.next_prekey <= id < store.next_prekey + list.len() ==> prekeys_added(
            store,
            me,
            list,
        ).prekeys[id] == (PrekeyView {
            username: me,
            kind: kind_named(list[id - store.next_prekey].kind@)->0,
            data: list[id - store.next_prekey].data@,
        }),
        id < store.next_prekey ==> prekeys_added(store, me, list).prekeys[id] == store.prekeys[id],
    decreases list.len(),
{
    if list.len() > 0 {
        lemma_keys_added(store, me, list.drop_last(), id);
        assert(list.last() == list[list.len() - 1]);
        if store.next_prekey <= id < store.next_prekey + list.len() - 1 {
            assert(list.drop_last()[id - store.next_prekey] == list[id - store.next_prekey]);
        }
    }
}

/// Whether an upload holds a one-time key of a kind, with the data.
pub open spec fn holds_key(list: Seq<PrekeyUpload>, kind: Seq<char>, data: Seq<char>) -> bool {
    exists|i: int|
        0 <= i < list.len() && (#[trigger] list[i]).kind@ == kind && list[i].data@ == data
}

/// Whether an upload holds any one-time key of a kind.
pub open spec fn holds_kind(list: Seq<PrekeyUpload>, kind: Seq<char>) -> bool {
    exists|i: int| 0 <= i < list.len() && (#[trigger] list[i]).kind@ == kind
}

proof fn lemma_popped_is_of_the_upload(
    w: World,
    me: Seq<char>,
    req: UploadKeysRequest,
    before: Map<u64, PrekeyView>,
    after: Map<u64, PrekeyView>,
    kind: PrekeyKind,
    got: Option<Seq<char>>,
)
    requires
        sound(w.store),
        upload_refusal(w.store, req) is None,
        popped(before, after, me, kind, got),
        forall|id: u64| #[trigger]
            before.contains_key(id) ==> after_upload(w, me, req).store.prekeys.contains_key(id)
                && before[id] == after_upload(w, me, req).store.prekeys[id],
        forall|id: u64| #[trigger]
            after_upload(w, me, req).store.prekeys.contains_key(id) && after_upload(
                w,
                me,
                req,
            ).store.prekeys[id].kind == kind ==> before.contains_key(id),
    ensures
        got is Some == holds_kind(req.one_time_prekeys@, kind_text(kind)),
        got is Some ==> holds_key(req.one_time_prekeys@, kind_text(kind), got->0),
{
    let list = req.one_time_prekeys@;
    let store = Store {
        accounts: w.store.accounts.insert(me, account_published(w.store.accounts[me], req)),
        prekeys: without_prekeys_of(w.store.prekeys, me),
        ..w.store
    };
    let all = after_upload(w, me, req).store.prekeys;
    reveal_strlit("ec");
    reveal_strlit("kyber");
    assert("ec"@.len() == 2 && "kyber"@.len() == 5);
    assert forall|i: int| 0 <= i < list.len() implies kind_named((#[trigger] list[i]).kind@) is Some by {}
    if let Some(data) = got {
        let id = choose|id: u64| #[trigger]
            before.contains_key(id) && is_prekey_of(before[id], me, kind) && before[id].data == data
                && after == before.remove(id);
        lemma_keys_added(store, me, list, id);
        assert(all.contains_key(id));
        assert(store.next_prekey <= id) by {
            if id < store.next_prekey {
                assert(store.prekeys.contains_key(id));
            }
        }
        let i = id - store.next_prekey;
        assert(list[i].data@ == data);
        assert(list[i].kind@ == kind_text(kind));
    } else if holds_kind(list, kind_text(kind)) {
        let i = choose|i: int| 0 <= i < list.len() && (#[trigger] list[i]).kind@ == kind_text(kind);
        let id = (store.next_prekey + i) as u64;
        lemma_keys_added(store, me, list, id);
        assert(all.contains_key(id) && all[id].kind == kind);
        assert(before.contains_key(id));
        assert(is_prekey_of(before[id], me, kind));
        assert(false);
    }
}

/// A contact is handed the keys that an account published: the part that stays as
/// it was uploaded, the identity that came with it, and a one-time key of each
/// kind, one of those uploaded, as long as there is any.
pub proof fn a_contact_gets_the_keys_that_were_published(
    w: World,
    me: Seq<char>,
    req: UploadKeysRequest,
    before: World,
    after: World,
    bundle: Bundle,
)
    requires
        sound(w.store),
        w.store.accounts.contains_key(me),
        upload_refusal(w.store, req) is None,
        before.store == after_upload(w, me, req).store,
        bundle_handed_out(before, after, me, bundle),
    ensures
        bundle.bundle_static@ == req.bundle_static@,
        req.identity_key is Some && req.registration_id is Some ==> bundle.identity_key@
            == req.identity_key->0@ && bundle.registration_id == req.registration_id->0,
        req.identity_key is None || req.registration_id is None ==> bundle.identity_key@
            == w.store.accounts[me].identity_key && bundle.registration_id
            == w.store.accounts[me].registration_id,
        bundle.one_time_prekey is Some == holds_kind(req.one_time_prekeys@, "ec"@),
        bundle.one_time_prekey is Some ==> holds_key(
            req.one_time_prekeys@,
            "ec"@,
            bundle.one_time_prekey->0@,
        ),
        bundle.kyber_prekey is Some == holds_kind(req.one_time_prekeys@, "kyber"@),
        bundle.kyber_prekey is Some ==> holds_key(
            req.one_time_prekeys@,
            "kyber"@,
            bundle.kyber_prekey->0@,
        ),
        after.store.accounts == before.store.accounts,
        after.store.messages == before.store.messages,
        after.store.links == before.store.links,
{
    let list = req.one_time_prekeys@;
    let store = Store {
        accounts: w.store.accounts.insert(me, account_published(w.store.accounts[me], req)),
        prekeys: without_prekeys_of(w.store.prekeys, me),
        ..w.store
    };
    lemma_keys_added(store, me, list, 0);
    let middle = choose|middle: Map<u64, PrekeyView>|
        #![trigger popped(before.store.prekeys, middle, me, PrekeyKind::Ec, text_in(bundle.one_time_prekey))]
        popped(
            before.store.prekeys,
            middle,
            me,
            PrekeyKind::Ec,
            text_in(bundle.one_time_prekey),
        ) && popped(
            middle,
            after.store.prekeys,
            me,
            PrekeyKind::Kyber,
            text_in(bundle.kyber_prekey),
        );
    lemma_popped_is_of_the_upload(
        w,
        me,
        req,
        before.store.prekeys,
        middle,
        PrekeyKind::Ec,
        text_in(bundle.one_time_prekey),
    );
    lemma_popped_is_of_the_upload(
        w,
        me,
        req,
        middle,
        after.store.prekeys,
        PrekeyKind::Kyber,
        text_in(bundle.kyber_prekey),
    );
}

/// An upload is taken exactly where it holds at most 200 one-time keys, every one
/// of a known kind, and no part has more than 65536 bytes; as long as the numbers
/// of the keys last.
pub proof fn an_upload_is_taken_where_it_is_in_order(store: Store, req: UploadKeysRequest)
    requires
        store.next_prekey + 200 <= i64::MAX,
    ensures
        upload_refusal(store, req) is None <==> {
            let list = req.one_time_prekeys@;
            &&& list.len() <= 200
            &&& encode_utf8(req.bundle_static@).len() <= 65_536
            &&& req.identity_key is Some ==> encode_utf8(req.identity_key->0@).len() <= 65_536
            &&& forall|i: int|
                0 <= i < list.len() ==> encode_utf8((#[trigger] list[i]).data@).len() <= 65_536 && (
                list[i].kind@ == "ec"@ || list[i].kind@ == "kyber"@)
        },
{
    let list = req.one_time_prekeys@;
    assert forall|i: int| 0 <= i < list.len() implies (kind_named((#[trigger] list[i]).kind@) is Some)
        == (list[i].kind@ == "ec"@ || list[i].kind@ == "kyber"@) by {}
}

/// A bundle is handed to the account itself and to whoever it accepted, once it
/// published keys.
pub proof fn a_bundle_is_handed_to_contacts(w: World, me: Seq<char>, name: Seq<char>, now: i64)
    requires
        passes(w, "bundle:"@ + me, 600, 3_600_000, now),
    ensures
        ({
            let there = w.store.accounts.contains_key(name) && (me == name || (
            w.store.links.contains_key((name, me)) && w.store.links[(name, me)].state
                == LinkState::Accepted));
            &&& !there ==> bundle_refusal(w, me, name, now) == Some(ApiError::NotFound)
            &&& there && w.store.accounts[name].bundle_static is None ==> bundle_refusal(
                w,
                me,
                name,
                now,
            ) == Some(ApiError::NoKeys)
            &&& there && w.store.accounts[name].bundle_static is Some ==> bundle_refusal(
                w,
                me,
                name,
                now,
            ) is None
        }),
{
}

/// Publishing keys changes the published keys of the account and nothing else of
/// it, nor any other account.
pub proof fn publishing_changes_nothing_else(
    w: World,
    me: Seq<char>,
    req: UploadKeysRequest,
    other: Seq<char>,
)
    requires
        w.store.accounts.contains_key(me),
        upload_refusal(w.store, req) is None,
        other != me,
    ensures
        ({
            let after = after_upload(w, me, req);
            let (was, is) = (w.store.accounts[me], after.store.accounts[me]);
            &&& is == (AccountView {
                bundle_static: is.bundle_static,
                identity_key: is.identity_key,
                registration_id: is.registration_id,
                ..was
            })
            &&& after.store.accounts.contains_key(other) == w.store.accounts.contains_key(other)
            &&& after.store.accounts.contains_key(other) ==> after.store.accounts[other]
                == w.store.accounts[other]
            &&& after.live == w.live
        }),
{
    let store = Store {
        accounts: w.store.accounts.insert(me, account_published(w.store.accounts[me], req)),
        prekeys: without_prekeys_of(w.store.prekeys, me),
        ..w.store
    };
    lemma_keys_added(store, me, req.one_time_prekeys@, 0);
}

/// A message that waits takes up the room of its body.
pub proof fn a_message_takes_the_room_of_its_body(
    messages: Map<Seq<char>, QueuedView>,
    ids: Set<Seq<char>>,
    id: Seq<char>,
)
    requires
        ids.finite(),
        !ids.contains(id),
    ensures
        bytes_held(messages, ids.insert(id)) == bytes_held(messages, ids) + encode_utf8(
            messages[id].body,
        ).len(),
{
    let size = |sum: int, id: Seq<char>| sum + encode_utf8(messages[id].body).len();
    assert(vstd::set::fold::is_fun_commutative(size));
    vstd::set::fold::lemma_fold_insert(ids, 0int, size, id);
}

/// A one-time key is taken from the keys of the account it is asked for, and of the
/// kind that is asked for.
pub proof fn a_key_is_taken_from_its_own_account(
    before: Map<u64, PrekeyView>,
    after: Map<u64, PrekeyView>,
    name: Seq<char>,
    kind: PrekeyKind,
    got: Option<Seq<char>>,
    id: u64,
)
    requires
        popped(before, after, name, kind, got),
        before.contains_key(id),
    ensures
        before[id].username != name || before[id].kind != kind ==> after.contains_key(id)
            && after[id] == before[id],
        got is None ==> before[id].username != name || before[id].kind != kind,
        got is Some ==> exists|k: u64| #[trigger]
            before.contains_key(k) && before[k].username == name && before[k].kind == kind
                && before[k].data == got->0 && !after.contains_key(k),
{
    if let Some(data) = got {
        let k = choose|k: u64| #[trigger]
            before.contains_key(k) && is_prekey_of(before[k], name, kind) && before[k].data == data
                && after == before.remove(k);
        assert(before.contains_key(k) && before[k].username == name && !after.contains_key(k));
    }
}

} // verus!
