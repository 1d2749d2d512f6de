//! What holds of the client as a whole.
pub mod commands;
pub mod roster;
#[allow(unused_imports)]
use vstd::utf8::encode_utf8;
use vstd::prelude::*;

#[allow(unused_imports)]
use crate::api::{entries_seen, ContactEntry, ContactEntryView, IncomingMessage, IncomingView};
#[allow(unused_imports)]
use crate::client::commands::{picture_parcels, shared_picture, ParcelView};
#[allow(unused_imports)]
use crate::client::errand::{
    after_delivery, answers, first_step, leads_to, published_in, received_from, step_from_bundle,
    Answer, AskView, ErrandView, SendFault, Stage, StepView,
};
#[allow(unused_imports)]
use crate::client::roster::{
    cache_of, cache_synced, entry_aliases_fit, entry_from_cache, entry_names_differ, fresh_names,
    is_cached_list, names_the_accepted, newly_accepted, picture_of, with_pictures,
};
#[allow(unused_imports)]
use crate::client::traffic::{
    added_if_it_fits, after_receiving, avatar_received, dispute_event, identity_accepted,
    in_dispute, known_identity, may_repair, notice_id, print_of, received_event, received_message,
    repairing, send_refused, sent_message, Received,
};
#[allow(unused_imports)]
use crate::client::{
    alias_changed, control, event_seen, picture, profile_fits, profile_info, profile_saved,
    signed_out, status_changed, ActorView, ClientEvent, ClientEventView, ClientFault, ProfileInfo,
};
#[allow(unused_imports)]
use crate::codec::b64_encoded;
#[allow(unused_imports)]
use crate::db::contacts::with_contact;
#[allow(unused_imports)]
use crate::db::laws::addresses_are_told_apart;
#[allow(unused_imports)]
use crate::db::messages::{
    is_message_list, message_added, reassigned, state_reported, undelivered, with_messages,
};
#[allow(unused_imports)]
use crate::db::meta::{account_in, profile_in, value_of, ProfileView};
#[allow(unused_imports)]
use crate::db::records::{address_of, device_number, pinned};
#[allow(unused_imports)]
use crate::db::{can_seal, CachedContactView, DbView, MessageView, StoredMessage};
#[allow(unused_imports)]
use crate::engine::{conflicts, content_in, content_json, sha256_digest};
#[allow(unused_imports)]
use crate::json::{record_in, text_field};
#[allow(unused_imports)]
use crate::text::has_prefix;

verus! {

/// Whether a conversation shows a message: under its number, of whom, whose, of
/// which kind and with which text.
pub open spec fn shows(
    list: Seq<StoredMessage>,
    id: Seq<char>,
    contact: Seq<char>,
    mine: bool,
    kind: Seq<char>,
    text: Seq<char>,
) -> bool {
    exists|i: int|
        0 <= i < list.len() && (#[trigger] list[i]).id@ == id && list[i].contact@ == contact
            && list[i].mine == mine && list[i].kind@ == kind && list[i].text@ == text
}

proof fn lemma_shown(
    list: Seq<StoredMessage>,
    messages: Map<Seq<char>, MessageView>,
    contact: Seq<char>,
    m: MessageView,
)
    requires
        is_message_list(list, messages, |m: MessageView| m.contact == contact),
        messages.contains_key(m.id),
        messages[m.id] == m,
        m.contact == contact,
    ensures
        exists|i: int| 0 <= i < list.len() && (#[trigger] list[i])@ == m,
{
    let i = choose|i: int| 0 <= i < list.len() && (#[trigger] list[i])@.id == m.id;
    assert(list[i]@ == m);
}

/// What is sent is what is kept: a message that is no instruction stands in the
/// conversation with its recipient, under the number that the relay gave it, with
/// the kind and the text that were sent, and these are what the recipient unpacks.
/// It is mine, on its way, and of this moment; the reply says the same.
pub proof fn a_sent_message_is_kept_as_it_was_sent(
    before: ActorView,
    after: ActorView,
    id: Seq<char>,
    recipient: Seq<char>,
    kind: Seq<char>,
    content: Seq<char>,
    payload: Seq<u8>,
    now: i64,
    stored: StoredMessage,
    list: Seq<StoredMessage>,
)
    requires
        kind != "delete"@ && kind != "rekey"@ && kind != "avatar"@,
        !before.db.messages.contains_key(id),
        content_in(payload) == (kind, content),
        stored@ == sent_message(id, recipient, kind, content, now),
        after == (ActorView {
            db: with_messages(
                before.db,
                message_added(
                    before.db.messages,
                    sent_message(id, recipient, kind, content, now),
                ),
            ),
            ..before
        }),
        is_message_list(list, after.db.messages, |m: MessageView| m.contact == recipient),
    ensures
        shows(list, id, recipient, true, content_in(payload).0, content_in(payload).1),
        stored.id@ == id,
        stored.contact@ == recipient,
        stored.mine,
        stored.kind@ == kind,
        stored.text@ == content,
        stored.state@ == "sent"@,
        stored.delivered_at is None,
        stored.read_at is None,
        stored.created_at == now,
        after.db.messages.contains_key(id),
        after.db.messages[id] == stored@,
        undelivered(after.db.messages[id], recipient),
{
    let m = sent_message(id, recipient, kind, content, now);
    lemma_shown(list, after.db.messages, recipient, m);
    let i = choose|i: int| 0 <= i < list.len() && (#[trigger] list[i])@ == m;
    assert(list[i].id@ == id);
}

/// The kinds that are instructions for the other device are these three, and no
/// other.
pub proof fn there_are_three_instructions(kind: Seq<char>)
    ensures
        control(kind) <==> kind == "delete"@ || kind == "rekey"@ || kind == "avatar"@,
        !control("text"@),
        !control("image"@),
{
    reveal_strlit("text");
    reveal_strlit("image");
    reveal_strlit("delete");
    reveal_strlit("rekey");
    reveal_strlit("avatar");
    assert("text"@.len() == 4 && "image"@.len() == 5 && "delete"@.len() == 6 && "rekey"@.len() == 5
        && "avatar"@.len() == 6);
    assert("image"@[0] == 'i' && "rekey"@[0] == 'r');
}

/// What is received is what is kept and shown: a message that is no instruction
/// stands in the conversation with its sender, under its number, with the kind and
/// the text that were sent, and the interface is told the same.
pub proof fn a_received_message_is_kept_as_it_was_sent(
    a: ActorView,
    msg: IncomingMessage,
    plain: Seq<u8>,
    kind: Seq<char>,
    text: Seq<char>,
    now: i64,
    received: Received,
    list: Seq<StoredMessage>,
)
    requires
        content_in(plain) == (kind, text),
        kind != "delete"@ && kind != "rekey"@ && kind != "avatar"@,
        !a.db.messages.contains_key(msg.id@),
        can_seal(a.secret, encode_utf8(text).len()),
        received_from(received, a, msg@, plain, now),
        is_message_list(
            list,
            after_receiving(a, msg@, plain, now).db.messages,
            |m: MessageView| m.contact == msg.sender@,
        ),
    ensures
        shows(list, msg.id@, msg.sender@, false, kind, text),
        ({
            let m = after_receiving(a, msg@, plain, now).db.messages[msg.id@];
            &&& m.state == "delivered"@
            &&& m.delivered_at == Some(now)
            &&& m.read_at is None
            &&& m.created_at == msg.created_at
        }),
        a.connected ==> received.event is Some && received.event->0 is Message && {
            let told = received.event->0->Message_0;
            &&& told.id@ == msg.id@
            &&& told.sender@ == msg.sender@
            &&& told.kind@ == kind
            &&& told.text@ == text
            &&& told.created_at == msg.created_at
        },
        !a.connected ==> received.event is None,
        received.resend_to is None,
        received.stored is Some,
        received.stored->0.id@ == msg.id@,
        received.stored->0.contact@ == msg.sender@,
        !received.stored->0.mine,
        received.stored->0.kind@ == kind,
        received.stored->0.text@ == text,
        received.stored->0.created_at == msg.created_at,
        received.unknown_sender == !a.db.contacts.contains_key(msg.sender@),
        after_receiving(a, msg@, plain, now) == (ActorView {
            db: with_messages(a.db, after_receiving(a, msg@, plain, now).db.messages),
            ..a
        }),
{
    let m = received_message(msg@, kind, text, now);
    lemma_shown(list, after_receiving(a, msg@, plain, now).db.messages, msg.sender@, m);
    let i = choose|i: int| 0 <= i < list.len() && (#[trigger] list[i])@ == m;
    assert(list[i].id@ == msg.id@);
}

/// Both ends of a conversation hold the same: what the one keeps as sent and the
/// other as received have one number, one kind and one text.
pub proof fn both_ends_hold_the_same(
    id: Seq<char>,
    from: Seq<char>,
    to: Seq<char>,
    kind: Seq<char>,
    content: Seq<char>,
    message: IncomingView,
    sent_at: i64,
    received_at: i64,
)
    requires
        message.id == id,
        message.sender == from,
    ensures
        ({
            let ours = sent_message(id, to, kind, content, sent_at);
            let theirs = received_message(message, kind, content, received_at);
            &&& ours.id == theirs.id
            &&& ours.kind == theirs.kind
            &&& ours.text == theirs.text
            &&& ours.mine && !theirs.mine
            &&& ours.contact == to
            &&& theirs.contact == from
        }),
{
}

/// An instruction does what it says: a picture is kept for its sender and an empty
/// one cleared, a deletion takes the one message that it names, and a rebuilt
/// session asks for what was never acknowledged. None does anything else.
pub proof fn an_instruction_does_what_it_says(
    a: ActorView,
    m: IncomingView,
    plain: Seq<u8>,
    kind: Seq<char>,
    text: Seq<char>,
    now: i64,
    received: Received,
    other: Seq<char>,
)
    requires
        content_in(plain) == (kind, text),
        received_from(received, a, m, plain, now),
    ensures
        kind == "avatar"@ ==> {
            let after = after_receiving(a, m, plain, now);
            &&& text.len() == 0 ==> !after.db.avatars.contains_key(m.sender)
            &&& text.len() > 0 && picture(text) && can_seal(a.secret, encode_utf8(text).len())
                ==> after.db.avatars.contains_key(m.sender) && after.db.avatars[m.sender] == text
            &&& text.len() > 0 && !picture(text) ==> after == a && received.event is None
            &&& other != m.sender ==> after.db.avatars.contains_key(other)
                == a.db.avatars.contains_key(other) && (a.db.avatars.contains_key(other)
                ==> after.db.avatars[other] == a.db.avatars[other])
            &&& after == (ActorView {
                db: DbView { avatars: after.db.avatars, ..a.db },
                ..a
            })
            &&& received.stored is None && received.resend_to is None
        },
        kind == "delete"@ ==> {
            let after = after_receiving(a, m, plain, now);
            &&& !after.db.messages.contains_key(text)
            &&& other != text ==> after.db.messages.contains_key(other)
                == a.db.messages.contains_key(other) && (a.db.messages.contains_key(other)
                ==> after.db.messages[other] == a.db.messages[other])
            &&& after == (ActorView { db: with_messages(a.db, after.db.messages), ..a })
            &&& a.connected ==> received.event is Some && received.event->0 is MessageDeleted
                && received.event->0->MessageDeleted_id@ == text
            &&& received.stored is None && received.resend_to is None
        },
        kind == "rekey"@ ==> {
            &&& after_receiving(a, m, plain, now) == a
            &&& received.event is None
            &&& received.stored is None
            &&& received.resend_to is Some
            &&& received.resend_to->0@ == m.sender
        },
{
    reveal_strlit("delete");
    reveal_strlit("rekey");
    reveal_strlit("avatar");
    assert("delete"@.len() == 6 && "rekey"@.len() == 5 && "avatar"@.len() == 6);
    assert("delete"@[0] == 'd' && "avatar"@[0] == 'a');
}

/// A picture is an inline image of at most 512 KiB.
pub proof fn what_counts_as_a_picture(rest: Seq<char>, other: Seq<char>)
    ensures
        picture("data:image/"@ + rest) == (encode_utf8("data:image/"@ + rest).len() <= 524_288),
        picture(other) ==> other.len() >= "data:image/"@.len() && other.take(
            "data:image/"@.len() as int,
        ) == "data:image/"@,
{
    let whole = "data:image/"@ + rest;
    assert(whole.take("data:image/"@.len() as int) =~= "data:image/"@);
}

/// An errand carries a message to its recipient and to nobody else: whatever is
/// asked for, encrypted or delivered on the way is for them, and what is encrypted
/// is what was to be sent.
pub proof fn an_errand_serves_its_recipient(
    before: ActorView,
    e: ErrandView,
    answer: Answer,
    now: i64,
    after: ActorView,
    step: StepView,
)
    requires
        leads_to(before, e, answer, now, after, step),
        step is Go,
    ensures
        step->errand.recipient == e.recipient,
        step->errand.kind == e.kind,
        step->errand.content == e.content,
        step->errand.resend_of == e.resend_of,
        step->errand.payload == e.payload,
        match step->ask {
            AskView::Profile { of } => of == e.recipient,
            AskView::Bundle { of } => of == e.recipient && e.stage == Stage::Profile,
            AskView::Establish { with, bundle } => with == e.recipient && answer is Bundle && bundle
                == answer->Bundle_text@ && !before.db.sessions.contains_key(
                address_of(e.recipient, 1),
            ),
            AskView::Encrypt { to, payload } => to == e.recipient && payload == e.payload,
            AskView::Deliver { to, envelope } => to == e.recipient && answer is Envelope
                && envelope == answer->Envelope_text@,
            _ => false,
        },
        after == before,
        answer is Profile ==> step->errand.alias == answer->Profile_alias@,
        !(answer is Profile) ==> step->errand.alias == e.alias,
        step->errand.stage == match e.stage {
            Stage::Profile => Stage::Bundle,
            Stage::Bundle => if before.db.sessions.contains_key(address_of(e.recipient, 1)) {
                Stage::Envelope
            } else {
                Stage::Session
            },
            Stage::Session => Stage::Envelope,
            Stage::Envelope => Stage::Id,
            Stage::Id => Stage::Id,
        },
{
}

/// An errand sets out with what is to be sent, packed as the recipient unpacks it,
/// unless there is no session or the recipient's key is in dispute.
pub proof fn an_errand_sets_out(
    a: ActorView,
    recipient: Seq<char>,
    kind: Seq<char>,
    content: Seq<char>,
    resend_of: Option<Seq<char>>,
)
    ensures
        a.session && !a.disputed.contains_key(recipient) <==> first_step(
            a,
            recipient,
            kind,
            content,
            resend_of,
        ) is Go,
        !a.session ==> send_refused(a, recipient) == Some(ClientFault::LogInFirst),
        a.session && a.disputed.contains_key(recipient) ==> send_refused(a, recipient) == Some(
            ClientFault::IdentityChanged,
        ),
        first_step(a, recipient, kind, content, resend_of) is Go ==> {
            let step = first_step(a, recipient, kind, content, resend_of);
            &&& step->errand.recipient == recipient
            &&& step->errand.kind == kind
            &&& step->errand.content == content
            &&& step->errand.resend_of == resend_of
            &&& step->errand.payload == encode_utf8(content_json(kind, content))
            &&& step->errand.stage == Stage::Profile
            &&& step->ask == (AskView::Profile { of: recipient })
        },
{
}

/// An errand ends with the message in the conversation, as it was to be sent and
/// under the number the relay gave it, and with the recipient among the contacts
/// under the alias they go by. An instruction leaves no message.
pub proof fn an_errand_ends_in_the_conversation(
    before: ActorView,
    e: ErrandView,
    id: Seq<char>,
    now: i64,
    other: Seq<char>,
)
    requires
        e.resend_of is None,
        can_seal(before.secret, encode_utf8(e.alias).len()),
        can_seal(before.secret, encode_utf8(e.content).len()),
        other != id,
    ensures
        ({
            let (after, step) = after_delivery(before, e, id, now);
            &&& step is Sent
            &&& step->stored.id == id
            &&& step->stored.contact == e.recipient
            &&& step->stored.kind == e.kind
            &&& step->stored.text == e.content
            &&& step->stored.created_at == now
            &&& after.db.contacts.contains_key(e.recipient)
            &&& after.db.contacts[e.recipient].alias == e.alias
            &&& after.db.contacts[e.recipient].state == "accepted"@
            &&& !control(e.kind) && !before.db.messages.contains_key(id)
                ==> after.db.messages.contains_key(id) && after.db.messages[id] == step->stored
            &&& control(e.kind) ==> after.db.messages == before.db.messages
            &&& after.db.messages.contains_key(other) == before.db.messages.contains_key(other)
            &&& before.db.messages.contains_key(other) ==> after.db.messages[other]
                == before.db.messages[other]
            &&& after.db.identities == before.db.identities && after.db.sessions
                == before.db.sessions && after.db.meta == before.db.meta
        }),
{
}

/// What is sent again stays one entry of the conversation: it goes on under the
/// number that the relay gave the new copy, as it was, and nothing else changes.
pub proof fn a_message_sent_again_stays_one(
    before: ActorView,
    e: ErrandView,
    old_id: Seq<char>,
    id: Seq<char>,
    now: i64,
    other: Seq<char>,
)
    requires
        e.resend_of == Some(old_id),
        can_seal(before.secret, encode_utf8(e.alias).len()),
        before.db.messages.contains_key(old_id),
        !before.db.messages.contains_key(id),
        other != id && other != old_id,
    ensures
        ({
            let (after, step) = after_delivery(before, e, id, now);
            let (was, is) = (before.db.messages[old_id], after.db.messages[id]);
            &&& step is Resent
            &&& !after.db.messages.contains_key(old_id)
            &&& after.db.messages.contains_key(id)
            &&& is == (MessageView { id, ..was })
            &&& after.db.messages.contains_key(other) == before.db.messages.contains_key(other)
            &&& before.db.messages.contains_key(other) ==> after.db.messages[other]
                == before.db.messages[other]
            &&& before.connected ==> step->Resent_event == Some(
                ClientEventView::MessageResent { old_id, new_id: id },
            )
            &&& !before.connected ==> step->Resent_event is None
        }),
{
}

/// A number is only given to a message where no other message has it, and the
/// message that gets it keeps everything else.
pub proof fn a_number_is_passed_on(
    messages: Map<Seq<char>, MessageView>,
    was: Seq<char>,
    new: Seq<char>,
    other: Seq<char>,
)
    requires
        was != new,
        other != was && other != new,
    ensures
        !messages.contains_key(was) ==> reassigned(messages, was, new) == Some(messages),
        messages.contains_key(was) && messages.contains_key(new) ==> reassigned(messages, was, new) is None,
        messages.contains_key(was) && !messages.contains_key(new) ==> {
            let after = reassigned(messages, was, new)->0;
            &&& reassigned(messages, was, new) is Some
            &&& !after.contains_key(was)
            &&& after.contains_key(new)
            &&& after[new].id == new
            &&& after[new].text == messages[was].text
            &&& after[new].kind == messages[was].kind
            &&& after[new].contact == messages[was].contact
            &&& after[new].state == messages[was].state
            &&& after[new].created_at == messages[was].created_at
            &&& after[new].mine == messages[was].mine
            &&& after.contains_key(other) == messages.contains_key(other)
            &&& messages.contains_key(other) ==> after[other] == messages[other]
        },
{
}

/// A changed key is put on record in the conversation with the contact, with the
/// fingerprint of the key they publish now, and put to the user with both
/// fingerprints.
pub proof fn a_changed_key_is_put_on_record(
    a: ActorView,
    contact: Seq<char>,
    known: Seq<char>,
    published: Seq<char>,
    now: i64,
)
    requires
        !a.disputed.contains_key(contact),
        !a.db.messages.contains_key(notice_id(contact, now)),
        can_seal(a.secret, encode_utf8(print_of(published)).len()),
    ensures
        ({
            let after = in_dispute(a, contact, published, now);
            let note = after.db.messages[notice_id(contact, now)];
            &&& after.disputed.contains_key(contact)
            &&& after.disputed[contact] == published
            &&& after.db.messages.contains_key(notice_id(contact, now))
            &&& note.contact == contact
            &&& !note.mine
            &&& note.kind == "keychange"@
            &&& note.text == print_of(published)
            &&& note.created_at == now
            &&& after.db.contacts == a.db.contacts && after.db.meta == a.db.meta
        }),
        a.connected ==> dispute_event(a, contact, known, published, now) == Some(
            ClientEventView::IdentityChanged {
                id: notice_id(contact, now),
                contact,
                known: print_of(known),
                published: print_of(published),
                at: now,
            },
        ),
        !a.connected ==> dispute_event(a, contact, known, published, now) is None,
{
}

/// Accepting a new key settles the dispute with that contact, and drops what was
/// held for the old key; nobody else's keys, sessions or disputes change.
pub proof fn accepting_a_key_is_about_one_contact(a: ActorView, contact: Seq<char>, other: Seq<char>)
    requires
        a.session,
        other != contact,
    ensures
        ({
            let after = identity_accepted(a, contact);
            &&& !after.disputed.contains_key(contact)
            &&& !after.db.sessions.contains_key(address_of(contact, 1))
            &&& !after.db.identities.contains_key(address_of(contact, 1))
            &&& after.disputed.contains_key(other) == a.disputed.contains_key(other)
            &&& pinned(after.db, other, 1) == pinned(a.db, other, 1)
            &&& after.db.sessions.contains_key(address_of(other, 1)) == a.db.sessions.contains_key(
                address_of(other, 1),
            )
            &&& after.db.messages == a.db.messages && after.db.contacts == a.db.contacts
                && after.db.meta == a.db.meta
        }),
{
    if address_of(other, 1) == address_of(contact, 1) {
        addresses_are_told_apart(other, 1, contact, 1);
    }
}

/// A session is rebuilt by dropping the ratchet with that peer and no other, at
/// the first unreadable message and then again a minute later at the earliest.
pub proof fn a_repair_is_about_one_peer(a: ActorView, peer: Seq<char>, other: Seq<char>, now: i64)
    requires
        other != peer,
    ensures
        !a.repairs.contains_key(peer) ==> may_repair(a, peer, now),
        a.repairs.contains_key(peer) ==> may_repair(a, peer, now) == (now - a.repairs[peer]
            >= 60_000),
        may_repair(repairing(a, peer, now), other, now) == may_repair(a, other, now),
        a.session ==> !repairing(a, peer, now).db.sessions.contains_key(address_of(peer, 1)),
        repairing(a, peer, now).db.sessions.contains_key(address_of(other, 1))
            == a.db.sessions.contains_key(address_of(other, 1)),
        repairing(a, peer, now).disputed == a.disputed,
        repairing(a, peer, now).db.contacts == a.db.contacts,
{
    if address_of(other, 1) == address_of(peer, 1) {
        addresses_are_told_apart(other, 1, peer, 1);
    }
}

/// The pinned identity of a contact is the one that the identity key of a bundle is
/// held against.
pub proof fn a_bundle_is_held_against_the_pin(
    a: ActorView,
    e: ErrandView,
    bundle: Seq<char>,
    f: Map<Seq<char>, Seq<char>>,
    now: i64,
    pin: Seq<u8>,
    published: Seq<char>,
)
    requires
        a.db.identities.contains_key(address_of(e.recipient, 1)),
        a.db.identities[address_of(e.recipient, 1)] == Some(pin),
        record_in(bundle) == Some(f),
        text_field(f, "identity_key"@) == Some(published),
        published.len() > 0,
    ensures
        published != b64_encoded(pin) <==> step_from_bundle(a, e, bundle, now).1 matches Some(
            StepView::Stopped { .. },
        ),
        published == b64_encoded(pin) ==> step_from_bundle(a, e, bundle, now).0 == a,
        published != b64_encoded(pin) ==> step_from_bundle(a, e, bundle, now).0.disputed.contains_pair(
            e.recipient,
            published,
        ),
{
}

/// A receipt changes the state of the message it names and of no other.
pub proof fn a_receipt_is_about_one_message(
    messages: Map<Seq<char>, MessageView>,
    id: Seq<char>,
    at: i64,
)
    requires
        messages.contains_key(id),
        messages[id].state == "sent"@,
        messages[id].delivered_at is None,
    ensures
        ({
            let once = state_reported(messages[id], "delivered"@, Some(at));
            &&& once.state == "delivered"@
            &&& once.delivered_at == Some(at)
            &&& once.read_at == messages[id].read_at
            &&& once == (MessageView {
                state: once.state,
                delivered_at: once.delivered_at,
                ..messages[id]
            })
            &&& state_reported(once, "sent"@, Some(at)) == once
            &&& state_reported(once, "read"@, Some(at)).state == "read"@
        }),
{
    reveal_strlit("sent");
    reveal_strlit("delivered");
    reveal_strlit("read");
    assert("sent"@[0] == 's' && "delivered"@[0] == 'd' && "read"@[0] == 'r');
}

/// Two notes about a contact's key are told apart by their moments.
pub proof fn notes_are_told_apart(contact: Seq<char>, a: i64, b: i64)
    requires
        notice_id(contact, a) == notice_id(contact, b),
    ensures
        a == b,
{
    let head = "keychange-"@ + contact;
    let (x, y) = (
        crate::text::signed_decimal(a as int),
        crate::text::signed_decimal(b as int),
    );
    let n = head.len() + "-"@.len();
    assert(notice_id(contact, a).skip(n as int) =~= x);
    assert(notice_id(contact, b).skip(n as int) =~= y);
    crate::text::written_numbers_read_back(a as int);
    crate::text::written_numbers_read_back(b as int);
}

} // verus!
