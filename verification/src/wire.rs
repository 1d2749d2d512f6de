//! What travels between a client and the relay: what the one side writes is what
//! the other side reads.
#[allow(unused_imports)]
use vstd::utf8::{decode_utf8, valid_utf8};
use vstd::prelude::*;

#[allow(unused_imports)]
use crate::api::{
    answer_code, archive_list_in, archived_in, complete_entries, contact_list_in, entries_seen,
    entry_in, event_in, events_in, first_break, frame_value, frames_in, incoming_in, line_at,
    no_break, presence_in, receipt_in, text_else, value_from, ContactEntry, ServerEvent,
};
#[allow(unused_imports)]
use crate::codec::{b64_decoded, utf8_lossy};
#[allow(unused_imports)]
use crate::engine::{
    bundle_in, content_in, envelope_in, fields_or_none, inner_fields, BundleFault, BundleParts,
    EnvelopeFault, EnvelopeKind,
};
#[allow(unused_imports)]
use crate::export_json::{list_field, moment_field};
#[allow(unused_imports)]
use crate::json::{int_field, json_read, record_in, text_field, JsonView};
#[allow(unused_imports)]
use crate::text::{
    has_prefix, has_suffix, split_at_char, the_last_piece_stands_behind_the_last_cut,
};

verus! {

/// Whether a field holds some bytes, in base64.
pub open spec fn carries(fields: Map<Seq<char>, Seq<char>>, name: Seq<char>, bytes: Seq<u8>) -> bool {
    text_field(fields, name) is Some && b64_decoded(text_field(fields, name)->0) == Some(bytes)
}

/// A key as it is published: its number, and the key.
pub struct Published {
    pub id: u32,
    pub public: Seq<u8>,
}

/// A signed key as it is published: its number, the key, and its signature.
pub struct PublishedSigned {
    pub id: u32,
    pub public: Seq<u8>,
    pub signature: Seq<u8>,
}

/// Whether a text is the record of a published key.
pub open spec fn publishes(text: Seq<char>, key: Published) -> bool {
    match json_read(text) {
        Some(JsonView::Record(f)) => int_field(f, "id"@) == Some(key.id as int) && carries(
            f,
            "public"@,
            key.public,
        ),
        _ => false,
    }
}

/// Whether a text is the record of a published signed key.
pub open spec fn publishes_signed(text: Seq<char>, key: PublishedSigned) -> bool {
    match json_read(text) {
        Some(JsonView::Record(f)) => int_field(f, "id"@) == Some(key.id as int) && carries(
            f,
            "public"@,
            key.public,
        ) && carries(f, "signature"@, key.signature),
        _ => false,
    }
}

/// A contact reads a bundle as it was published: whose it is, the signed prekey,
/// and the kyber key, a one-time key where there is one and the last resort
/// otherwise, each with its own number, key and signature.
pub proof fn a_bundle_is_read_as_it_was_published(
    text: Seq<char>,
    f: Map<Seq<char>, Seq<char>>,
    lasting: Map<Seq<char>, Seq<char>>,
    registration_id: u32,
    identity_key: Seq<u8>,
    signed: PublishedSigned,
    last_resort: PublishedSigned,
    one_time: Option<Published>,
    kyber: Option<PublishedSigned>,
    bundle: BundleParts,
)
    requires
        json_read(text) == Some(JsonView::Record(f)),
        int_field(f, "registration_id"@) == Some(registration_id as int),
        carries(f, "identity_key"@, identity_key),
        f.contains_key("bundle_static"@),
        json_read(f["bundle_static"@]) == Some(JsonView::Record(lasting)),
        lasting.contains_key("signed_prekey"@),
        publishes_signed(lasting["signed_prekey"@], signed),
        lasting.contains_key("kyber_last_resort"@),
        publishes_signed(lasting["kyber_last_resort"@], last_resort),
        match one_time {
            Some(key) => text_field(f, "one_time_prekey"@) is Some && publishes(
                text_field(f, "one_time_prekey"@)->0,
                key,
            ),
            None => text_field(f, "one_time_prekey"@) is None,
        },
        match kyber {
            Some(key) => text_field(f, "kyber_prekey"@) is Some && publishes_signed(
                text_field(f, "kyber_prekey"@)->0,
                key,
            ),
            None => text_field(f, "kyber_prekey"@) is None,
        },
        bundle_in(text) is Ok ==> bundle_in(text) == Ok::<_, BundleFault>(bundle@),
    ensures
        bundle_in(text) is Ok,
        bundle.registration_id == registration_id,
        bundle.identity_key@ == identity_key,
        bundle.signed.id == signed.id,
        bundle.signed.public@ == signed.public,
        bundle.signed.signature@ == signed.signature,
        ({
            let used = match kyber {
                Some(key) => key,
                None => last_resort,
            };
            &&& bundle.kyber.id == used.id
            &&& bundle.kyber.public@ == used.public
            &&& bundle.kyber.signature@ == used.signature
        }),
        bundle.one_time is Some == one_time is Some,
        one_time is Some ==> bundle.one_time->0.id == one_time->0.id
            && bundle.one_time->0.public@ == one_time->0.public,
{
}

/// What was packed for the recipient is what they unpack; what is no such record
/// is taken for a text.
pub proof fn a_payload_says_what_it_is(
    plain: Seq<u8>,
    f: Map<Seq<char>, Seq<char>>,
    kind: Seq<char>,
    content: Seq<char>,
)
    ensures
        valid_utf8(plain) && json_read(decode_utf8(plain)) == Some(JsonView::Record(f))
            && text_field(f, "kind"@) == Some(kind) && text_field(f, "content"@) == Some(content)
            ==> content_in(plain) == (kind, content),
        !valid_utf8(plain) || json_read(decode_utf8(plain)) is None ==> content_in(plain) == (
            "text"@,
            utf8_lossy(plain),
        ),
{
}

/// An envelope holds the ciphertext that was put in it, and says how it was
/// encrypted.
pub proof fn an_envelope_says_what_it_holds(
    text: Seq<char>,
    f: Map<Seq<char>, Seq<char>>,
    cipher: Seq<u8>,
)
    requires
        json_read(text) == Some(JsonView::Record(f)),
        carries(f, "c"@, cipher),
    ensures
        text_field(f, "t"@) == Some("prekey"@) ==> envelope_in(text) == Ok::<_, EnvelopeFault>(
            (EnvelopeKind::PreKey, cipher),
        ),
        text_field(f, "t"@) == Some("signal"@) ==> envelope_in(text) == Ok::<_, EnvelopeFault>(
            (EnvelopeKind::Signal, cipher),
        ),
        envelope_in(text) is Ok ==> text_field(f, "t"@) == Some("prekey"@) || text_field(f, "t"@)
            == Some("signal"@),
{
    reveal_strlit("prekey");
    reveal_strlit("signal");
    assert("prekey"@[0] == 'p' && "signal"@[0] == 's');
}

/// A frame of the event stream: the kind of the event on one line, and its data on
/// the next.
pub open spec fn framed(name: Seq<char>, data: Seq<char>) -> Seq<char> {
    ("event: "@ + name).push('\n') + ("data: "@ + data)
}

/// Whether a text fits on a line.
pub open spec fn one_line(text: Seq<char>) -> bool {
    !text.contains('\n') && !text.contains('\r')
}

proof fn lemma_no_newline(front: Seq<char>, back: Seq<char>)
    requires
        one_line(front),
        one_line(back),
    ensures
        one_line(front + back),
{
    assert forall|i: int| 0 <= i < (front + back).len() implies (front + back)[i] != '\n' && (front
        + back)[i] != '\r' by {
        if i < front.len() {
            assert(front.contains(front[i]));
        } else {
            assert(back.contains(back[i - front.len()]));
        }
    }
}

proof fn lemma_literal_lines()
    ensures
        one_line("event: "@),
        one_line("data: "@),
        one_line("message"@),
        one_line("receipt"@),
        one_line("contacts"@),
{
    reveal_strlit("event: ");
    reveal_strlit("data: ");
    reveal_strlit("message");
    reveal_strlit("receipt");
    reveal_strlit("contacts");
}

proof fn lemma_framed(name: Seq<char>, data: Seq<char>)
    requires
        one_line(name),
        one_line(data),
    ensures
        frame_value(framed(name, data), "event: "@) == Some(name),
        frame_value(framed(name, data), "data: "@) == Some(data),
        frame_value("data: "@ + data, "event: "@) is None,
        frame_value("data: "@ + data, "data: "@) == Some(data),
{
    let head = "event: "@ + name;
    let tail = "data: "@ + data;
    lemma_literal_lines();
    lemma_no_newline("event: "@, name);
    lemma_no_newline("data: "@, data);
    the_last_piece_stands_behind_the_last_cut(head, '\n', tail);
    the_last_piece_stands_behind_the_last_cut(Seq::empty(), '\n', head);
    let lines = split_at_char(framed(name, data), '\n');
    assert(lines =~= seq![head, tail]);
    reveal_strlit("event: ");
    reveal_strlit("data: ");
    reveal_strlit("\r");
    assert(!has_suffix(head, "\r"@)) by {
        if has_suffix(head, "\r"@) {
            assert(head.skip(head.len() - 1)[0] == '\r');
            assert(head.contains(head[head.len() - 1]));
        }
    }
    assert(line_at(lines, 0) == head);
    assert(line_at(lines, 1) == tail);
    assert(head.take(7) =~= "event: "@);
    assert(head.skip(7) =~= name);
    assert(tail.take(6) =~= "data: "@);
    assert(tail.skip(6) =~= data);
    assert(!has_prefix(head, "data: "@)) by {
        if has_prefix(head, "data: "@) {
            assert(head.take(6)[0] == 'd');
        }
    }
    reveal_with_fuel(value_from, 3);
    let single = split_at_char(tail, '\n');
    assert(single =~= seq![tail]);
    assert(line_at(single, 0) == tail);
    assert(!has_prefix(tail, "event: "@)) by {
        if has_prefix(tail, "event: "@) {
            assert(tail.take(7)[0] == 'e');
        }
    }
}

/// What the relay pushes is what the client reads: the message event of a frame
/// has the very number, sender, body and moment that were pushed. A sender that
/// names no device has but one, and a frame that names no kind is a message.
pub proof fn a_pushed_message_is_read_as_it_was_pushed(
    frame: Seq<char>,
    data: Seq<char>,
    f: Map<Seq<char>, Seq<char>>,
    id: Seq<char>,
    sender: Seq<char>,
    device: Option<u32>,
    body: Seq<char>,
    created_at: i64,
    event: ServerEvent,
)
    requires
        one_line(data),
        frame == framed("message"@, data) || frame == "data: "@ + data,
        json_read(data) == Some(JsonView::Record(f)),
        text_field(f, "id"@) == Some(id),
        text_field(f, "sender"@) == Some(sender),
        text_field(f, "body"@) == Some(body),
        int_field(f, "created_at"@) == Some(created_at as int),
        match device {
            Some(n) => int_field(f, "sender_device"@) == Some(n as int),
            None => !f.contains_key("sender_device"@),
        },
        event_in(frame) is Some ==> event_in(frame) == Some(event@),
    ensures
        event_in(frame) is Some,
        event is Message,
        event->Message_0.id@ == id,
        event->Message_0.sender@ == sender,
        event->Message_0.body@ == body,
        event->Message_0.created_at == created_at,
        event->Message_0.sender_device == match device {
            Some(n) => n,
            None => 1,
        },
{
    lemma_literal_lines();
    lemma_framed("message"@, data);
    reveal_strlit("message");
    reveal_strlit("contacts");
    assert("message"@[0] == 'm' && "contacts"@[0] == 'c');
}

/// A receipt is read as it was pushed.
pub proof fn a_pushed_receipt_is_read_as_it_was_pushed(
    data: Seq<char>,
    f: Map<Seq<char>, Seq<char>>,
    id: Seq<char>,
    state: Seq<char>,
    at: i64,
    event: ServerEvent,
)
    requires
        one_line(data),
        json_read(data) == Some(JsonView::Record(f)),
        text_field(f, "id"@) == Some(id),
        text_field(f, "state"@) == Some(state),
        int_field(f, "at"@) == Some(at as int),
        event_in(framed("receipt"@, data)) is Some ==> event_in(framed("receipt"@, data)) == Some(
            event@,
        ),
    ensures
        event_in(framed("receipt"@, data)) is Some,
        event is Receipt,
        event->id@ == id,
        event->state@ == state,
        event->at == at,
{
    lemma_literal_lines();
    lemma_framed("receipt"@, data);
    reveal_strlit("message");
    reveal_strlit("contacts");
    reveal_strlit("receipt");
    assert("message"@[0] == 'm' && "contacts"@[0] == 'c' && "receipt"@[0] == 'r');
}

/// A change of the contacts is heard of, whatever comes with it; an event of any
/// other kind is none.
pub proof fn only_known_events_are_heard(name: Seq<char>, data: Seq<char>, event: ServerEvent)
    requires
        one_line(name),
        one_line(data),
        event_in(framed(name, data)) is Some ==> event_in(framed(name, data)) == Some(event@),
    ensures
        name == "contacts"@ ==> event_in(framed(name, data)) is Some && event is ContactsChanged,
        name != "contacts"@ && name != "message"@ && name != "receipt"@ ==> event_in(
            framed(name, data),
        ) is None,
{
    lemma_framed(name, data);
}

/// A frame is whole once a blank line follows it: its event is handed out then,
/// once, and nothing is left over.
pub proof fn a_frame_is_whole_at_a_blank_line(frame: Seq<char>)
    requires
        no_break(frame.push('\n')),
    ensures
        frames_in(frame.push('\n')).0.len() == 0,
        frames_in(frame.push('\n')).1 == frame.push('\n'),
        frames_in(frame.push('\n').push('\n')).0 == seq![frame],
        frames_in(frame.push('\n').push('\n')).1.len() == 0,
        event_in(frame) is Some ==> events_in(frames_in(frame.push('\n').push('\n')).0) == seq![
            event_in(frame)->0,
        ],
        event_in(frame) is None ==> events_in(frames_in(frame.push('\n').push('\n')).0).len() == 0,
{
    let text = frame.push('\n').push('\n');
    let end = frame.len() as int;
    assert(crate::api::breaks_at(text, end));
    assert(first_break(text, end)) by {
        assert forall|i: int| 0 <= i < end implies !#[trigger] crate::api::breaks_at(text, i) by {
            assert(!crate::api::breaks_at(frame.push('\n'), i));
        }
    }
    crate::api::lemma_break_is_the_first(text, end);
    assert(text.take(end) =~= frame);
    assert(text.skip(end + 2) =~= Seq::<char>::empty());
    assert(no_break(text.skip(end + 2)));
    let frames = frames_in(text).0;
    assert(frames =~= seq![frame]);
    assert(frames.drop_first() =~= Seq::<Seq<char>>::empty());
    reveal_with_fuel(events_in, 2);
    if event_in(frame) is Some {
        assert(events_in(frames) =~= seq![event_in(frame)->0]);
    }
}

/// The client reads the contact list that the relay sends: every entry, in order,
/// with its own name, alias, state, presence and last visit.
pub proof fn a_contact_list_is_read_as_it_was_sent(
    body: Seq<char>,
    f: Map<Seq<char>, Seq<char>>,
    items: Seq<Seq<char>>,
    list: Seq<ContactEntry>,
    i: int,
    g: Map<Seq<char>, Seq<char>>,
)
    requires
        json_read(body) == Some(JsonView::Record(f)),
        list_field(f, "contacts"@) == Some(items),
        entries_seen(list) == contact_list_in(body),
        0 <= i < items.len(),
        json_read(items[i]) == Some(JsonView::Record(g)),
    ensures
        list.len() == items.len(),
        text_field(g, "username"@) is Some ==> list[i].username@ == text_field(g, "username"@)->0,
        text_field(g, "alias"@) is Some ==> list[i].alias@ == text_field(g, "alias"@)->0,
        text_field(g, "state"@) is Some ==> list[i].state@ == text_field(g, "state"@)->0,
        text_field(g, "status"@) is Some ==> list[i].status@ == text_field(g, "status"@)->0,
        text_field(g, "status"@) is None ==> list[i].status@ == "offline"@,
        text_field(g, "state"@) is None ==> list[i].state@ == "accepted"@,
        list[i].last_seen is Some == (int_field(g, "last_seen"@) is Some && i64::MIN <= int_field(
            g,
            "last_seen"@,
        )->0 <= i64::MAX),
        list[i].last_seen is Some ==> list[i].last_seen->0 == int_field(g, "last_seen"@)->0,
        list[i].avatar is None,
{
    assert(entries_seen(list).len() == items.len());
    assert(entries_seen(list)[i] == list[i]@);
    assert(contact_list_in(body)[i] == entry_in(items[i]));
}

/// The client reads the archive that the relay sends: every complete entry, in
/// order, and none that lacks its number or its contents.
pub proof fn an_archive_is_read_as_it_was_sent(
    items: Seq<Seq<char>>,
    last: Seq<char>,
    g: Map<Seq<char>, Seq<char>>,
)
    requires
        json_read(last) == Some(JsonView::Record(g)),
    ensures
        complete_entries(Seq::empty()).len() == 0,
        text_field(g, "id"@) is Some && text_field(g, "blob"@) is Some ==> complete_entries(
            items.push(last),
        ) == complete_entries(items).push((text_field(g, "id"@)->0, text_field(g, "blob"@)->0)),
        text_field(g, "id"@) is None || text_field(g, "blob"@) is None ==> complete_entries(
            items.push(last),
        ) == complete_entries(items),
{
    assert(items.push(last).drop_last() =~= items);
}

/// The client finds the archive where the relay puts it.
pub proof fn the_archive_is_found(
    body: Seq<char>,
    f: Map<Seq<char>, Seq<char>>,
    items: Seq<Seq<char>>,
)
    requires
        json_read(body) == Some(JsonView::Record(f)),
        list_field(f, "entries"@) == Some(items),
    ensures
        archive_list_in(body) == complete_entries(items),
{
}

/// The client reads the presence of each name that the relay answers for, and of
/// no other.
pub proof fn presence_is_read_as_it_was_sent(
    body: Seq<char>,
    f: Map<Seq<char>, Seq<char>>,
    g: Map<Seq<char>, Seq<char>>,
    name: Seq<char>,
)
    requires
        json_read(body) == Some(JsonView::Record(f)),
        f.contains_key("presence"@),
        json_read(f["presence"@]) == Some(JsonView::Record(g)),
    ensures
        presence_in(body).contains_key(name) == g.contains_key(name),
        text_field(g, name) is Some ==> presence_in(body)[name] == text_field(g, name)->0,
        g.contains_key(name) && text_field(g, name) is None ==> presence_in(body)[name]
            == "offline"@,
{
}

/// The text of a field that an answer has is the text that is read; another one
/// stands in only where the field is missing or no text.
pub proof fn an_answer_is_read_as_it_was_sent(
    body: Seq<char>,
    f: Map<Seq<char>, Seq<char>>,
    name: Seq<char>,
    other: Seq<char>,
)
    requires
        json_read(body) == Some(JsonView::Record(f)),
    ensures
        fields_or_none(body) == f,
        text_field(f, name) is Some ==> text_else(fields_or_none(body), name, other) == text_field(
            f,
            name,
        )->0,
        text_field(f, name) is None ==> text_else(fields_or_none(body), name, other) == other,
{
}

/// A success has no code, and everything else has one: a fault of the relay itself
/// is always the same, and otherwise the relay says which.
pub proof fn every_refusal_has_a_code(status: u16, body: Seq<char>, f: Map<Seq<char>, Seq<char>>)
    requires
        json_read(body) == Some(JsonView::Record(f)),
    ensures
        answer_code(status, body) is None <==> 200 <= status <= 299,
        500 <= status <= 599 ==> answer_code(status, body) == Some("internal_error"@),
        (300 <= status <= 499) && text_field(f, "code"@) is Some ==> answer_code(status, body)
            == text_field(f, "code"@),
        (300 <= status <= 499) && text_field(f, "code"@) is None ==> answer_code(status, body)
            == Some("request_failed"@),
{
}

} // verus!
