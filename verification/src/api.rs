//! What the relay sends, as the client reads it.
use vstd::prelude::*;

#[allow(unused_imports)]
use crate::engine::{fields_or_none, inner_fields};
#[allow(unused_imports)]
use crate::export_json::{as_moment, list_field, moment_field};
use crate::json::{read_list, read_record, Fields};
#[allow(unused_imports)]
use crate::json::{fields_of, int_field, record_in, text_field};
#[allow(unused_imports)]
use crate::table::as_map;
#[allow(unused_imports)]
use crate::text::{has_prefix, has_suffix, split_at_char, text_in, texts};
use crate::text::{chars_of, join2, same_text, slice_text, split, strip_prefix, strip_suffix};

verus! {

/// Public profile of another user as served by the relay.
pub struct RemoteProfile {
    pub alias: String,
    pub identity_key: String,
    /// "online", "away", "busy" or "offline".
    pub status: String,
}

/// One entry of the server-side contact list.
pub struct ContactEntry {
    pub username: String,
    pub alias: String,
    /// "incoming", "outgoing", "accepted" or "blocked".
    pub state: String,
    pub status: String,
    /// When they were last around, while they are not.
    pub last_seen: Option<i64>,
    /// Their picture, which this device keeps.
    pub avatar: Option<String>,
}

/// An entry of the contact list as a plain value.
pub struct ContactEntryView {
    pub username: Seq<char>,
    pub alias: Seq<char>,
    pub state: Seq<char>,
    pub status: Seq<char>,
    pub last_seen: Option<i64>,
    pub avatar: Option<Seq<char>>,
}

impl View for ContactEntry {
    type V = ContactEntryView;

    open spec fn view(&self) -> ContactEntryView {
        ContactEntryView {
            username: self.username@,
            alias: self.alias@,
            state: self.state@,
            status: self.status@,
            last_seen: self.last_seen,
            avatar: text_in(self.avatar),
        }
    }
}

/// A message delivered by the server. The body is an opaque envelope.
pub struct IncomingMessage {
    pub id: String,
    pub sender: String,
    /// Which of the sender's devices it came from.
    pub sender_device: u32,
    pub body: String,
    pub created_at: i64,
}

/// A delivered message as a plain value.
pub struct IncomingView {
    pub id: Seq<char>,
    pub sender: Seq<char>,
    pub sender_device: u32,
    pub body: Seq<char>,
    pub created_at: i64,
}

impl View for IncomingMessage {
    type V = IncomingView;

    open spec fn view(&self) -> IncomingView {
        IncomingView {
            id: self.id@,
            sender: self.sender@,
            sender_device: self.sender_device,
            body: self.body@,
            created_at: self.created_at,
        }
    }
}

/// Anything the server pushes down the stream.
pub enum ServerEvent {
    Message(IncomingMessage),
    ContactsChanged,
    /// One of our messages was delivered or read.
    Receipt { id: String, state: String, at: i64 },
}

/// What the server pushes, as a plain value.
pub enum ServerEventView {
    Message(IncomingView),
    ContactsChanged,
    Receipt { id: Seq<char>, state: Seq<char>, at: i64 },
}

impl View for ServerEvent {
    type V = ServerEventView;

    open spec fn view(&self) -> ServerEventView {
        match self {
            ServerEvent::Message(message) => ServerEventView::Message(message@),
            ServerEvent::ContactsChanged => ServerEventView::ContactsChanged,
            ServerEvent::Receipt { id, state, at } => ServerEventView::Receipt {
                id: id@,
                state: state@,
                at: *at,
            },
        }
    }
}

/// The code of an answer: nothing where it is a success, and otherwise a stable
/// code that the interface can show in the user's own language. No HTTP jargon
/// reaches it.
pub open spec fn answer_code(status: u16, body: Seq<char>) -> Option<Seq<char>> {
    if 200 <= status < 300 {
        None
    } else if 500 <= status < 600 {
        Some("internal_error"@)
    } else {
        match text_field(fields_or_none(body), "code"@) {
            Some(code) => Some(code),
            None => Some("request_failed"@),
        }
    }
}

/// The text in a field of an answer, where it has one.
pub fn reply_text(body: &str, name: &str) -> (text: Option<String>)
    ensures
        text_in(text) == text_field(fields_or_none(body@), name@),
{
    match read_record(body) {
        Some(fields) => fields.text(name),
        None => None,
    }
}

/// Turns an answer into a stable error code, where it is none of success.
pub fn check(status: u16, body: &str) -> (code: Option<String>)
    ensures
        text_in(code) == answer_code(status, body@),
{
    if 200 <= status && status < 300 {
        return None;
    }
    if 500 <= status && status < 600 {
        return Some("internal_error".to_string());
    }
    match reply_text(body, "code") {
        Some(code) => Some(code),
        None => Some("request_failed".to_string()),
    }
}

/// The text in a field, or a given one where it holds none.
pub open spec fn text_else(f: Map<Seq<char>, Seq<char>>, name: Seq<char>, other: Seq<char>) -> Seq<
    char,
> {
    match text_field(f, name) {
        Some(text) => text,
        None => other,
    }
}

/// The text in a field, or a given one where it holds none.
fn read_text_else(fields: &Fields, name: &str, other: &str) -> (text: String)
    ensures
        text@ == text_else(fields@, name@, other@),
{
    match fields.text(name) {
        Some(text) => text,
        None => other.to_string(),
    }
}

/// The fields of the record that a text holds; none where it holds anything else.
fn read_fields_or_none(text: &str) -> (fields: Fields)
    ensures
        fields@ == fields_or_none(text@),
{
    match read_record(text) {
        Some(fields) => fields,
        None => Fields::new(),
    }
}

/// Reads a profile.
pub fn read_profile(body: &str) -> (profile: RemoteProfile)
    ensures
        profile.alias@ == text_else(fields_or_none(body@), "alias"@, ""@),
        profile.identity_key@ == text_else(fields_or_none(body@), "identity_key"@, ""@),
        profile.status@ == text_else(fields_or_none(body@), "status"@, "offline"@),
{
    let fields = read_fields_or_none(body);
    RemoteProfile {
        alias: read_text_else(&fields, "alias", ""),
        identity_key: read_text_else(&fields, "identity_key", ""),
        status: read_text_else(&fields, "status", "offline"),
    }
}

/// An entry of a contact list as the server sends it.
pub open spec fn entry_in(text: Seq<char>) -> ContactEntryView {
    let f = fields_or_none(text);
    ContactEntryView {
        username: text_else(f, "username"@, ""@),
        alias: text_else(f, "alias"@, ""@),
        state: text_else(f, "state"@, "accepted"@),
        status: text_else(f, "status"@, "offline"@),
        last_seen: moment_field(f, "last_seen"@),
        avatar: None,
    }
}

/// The contact list in an answer; none where it has none.
pub open spec fn contact_list_in(body: Seq<char>) -> Seq<ContactEntryView> {
    match list_field(fields_or_none(body), "contacts"@) {
        Some(items) => items.map_values(|item: Seq<char>| entry_in(item)),
        None => Seq::empty(),
    }
}

/// The entries of a list as plain values.
pub open spec fn entries_seen(list: Seq<ContactEntry>) -> Seq<ContactEntryView> {
    list.map_values(|e: ContactEntry| e@)
}

/// Reads an entry of a contact list.
fn read_contact_entry(text: &str) -> (entry: ContactEntry)
    ensures
        entry@ == entry_in(text@),
{
    let fields = read_fields_or_none(text);
    let last_seen = match fields.number("last_seen") {
        Some(n) => if n >= -0x8000_0000_0000_0000 && n <= 0x7fff_ffff_ffff_ffff {
            Some(n as i64)
        } else {
            None
        },
        None => None,
    };
    ContactEntry {
        username: read_text_else(&fields, "username", ""),
        alias: read_text_else(&fields, "alias", ""),
        state: read_text_else(&fields, "state", "accepted"),
        status: read_text_else(&fields, "status", "offline"),
        last_seen,
        avatar: None,
    }
}

/// Reads the contact list.
pub fn read_contact_list(body: &str) -> (list: Vec<ContactEntry>)
    ensures
        entries_seen(list@) == contact_list_in(body@),
{
    let fields = read_fields_or_none(body);
    let mut list: Vec<ContactEntry> = Vec::new();
    let items = match fields.raw("contacts") {
        Some(raw) => read_list(raw),
        None => None,
    };
    if let Some(items) = items {
        let mut i: usize = 0;
        while i < items.len()
            invariant
                i <= items@.len(),
                list@.len() == i,
                forall|j: int| 0 <= j < i ==> (#[trigger] list@[j])@ == entry_in(items@[j]@),
            decreases items@.len() - i,
        {
            list.push(read_contact_entry(&items[i]));
            i = i + 1;
        }
        assert(entries_seen(list@) =~= texts(items@).map_values(
            |item: Seq<char>| entry_in(item),
        ));
    } else {
        assert(entries_seen(list@) =~= Seq::<ContactEntryView>::empty());
    }
    list
}

/// An entry of the archive as the server sends it: its number and its contents,
/// where it has both.
pub open spec fn archived_in(text: Seq<char>) -> Option<(Seq<char>, Seq<char>)> {
    let f = fields_or_none(text);
    match (text_field(f, "id"@), text_field(f, "blob"@)) {
        (Some(id), Some(blob)) => Some((id, blob)),
        _ => None,
    }
}

/// The entries that are complete, in order.
pub open spec fn complete_entries(items: Seq<Seq<char>>) -> Seq<(Seq<char>, Seq<char>)>
    decreases items.len(),
{
    if items.len() == 0 {
        Seq::empty()
    } else {
        let before = complete_entries(items.drop_last());
        match archived_in(items.last()) {
            Some(entry) => before.push(entry),
            None => before,
        }
    }
}

/// The archive in an answer; nothing where it has none.
pub open spec fn archive_list_in(body: Seq<char>) -> Seq<(Seq<char>, Seq<char>)> {
    match list_field(fields_or_none(body), "entries"@) {
        Some(items) => complete_entries(items),
        None => Seq::empty(),
    }
}

/// Pairs of texts, as plain values.
pub open spec fn pairs_seen(list: Seq<(String, String)>) -> Seq<(Seq<char>, Seq<char>)> {
    list.map_values(|p: (String, String)| (p.0@, p.1@))
}

/// Reads the encrypted history archive, as pairs of a number and its contents.
pub fn read_archive_list(body: &str) -> (list: Vec<(String, String)>)
    ensures
        pairs_seen(list@) == archive_list_in(body@),
{
    let fields = read_fields_or_none(body);
    let mut list: Vec<(String, String)> = Vec::new();
    assert(pairs_seen(list@) =~= Seq::<(Seq<char>, Seq<char>)>::empty());
    let items = match fields.raw("entries") {
        Some(raw) => read_list(raw),
        None => None,
    };
    if let Some(items) = items {
        let ghost all = texts(items@);
        let mut i: usize = 0;
        while i < items.len()
            invariant
                i <= items@.len(),
                all == texts(items@),
                pairs_seen(list@) == complete_entries(all.take(i as int)),
            decreases items@.len() - i,
        {
            proof {
                assert(all.take(i + 1).drop_last() =~= all.take(i as int));
                assert(all.take(i + 1).last() == items@[i as int]@);
            }
            let ghost before = list@;
            let entry = read_fields_or_none(&items[i]);
            if let (Some(id), Some(blob)) = (entry.text("id"), entry.text("blob")) {
                list.push((id, blob));
                assert(pairs_seen(list@) =~= pairs_seen(before).push((id@, blob@)));
            }
            i = i + 1;
        }
        assert(all.take(all.len() as int) =~= all);
    }
    list
}

/// The presence of each name in an answer; nothing where it has none. One that is
/// no text is taken for offline.
pub open spec fn presence_in(body: Seq<char>) -> Map<Seq<char>, Seq<char>> {
    let f = inner_fields(fields_or_none(body), "presence"@);
    f.map_entries(|name: Seq<char>, raw: Seq<char>| text_else(f, name, "offline"@))
}

/// Reads the presence of a set of users, as pairs of a name and its presence.
pub fn read_presence_list(body: &str) -> (list: Vec<(String, String)>)
    ensures
        fields_of(list@) == presence_in(body@),
{
    let fields = read_fields_or_none(body);
    let found = match fields.raw("presence") {
        Some(raw) => read_fields_or_none(raw),
        None => Fields::new(),
    };
    let ghost f = found@;
    let ghost names = pairs_seen(found.list@);
    let mut list: Vec<(String, String)> = Vec::new();
    assert(pairs_seen(list@) =~= Seq::<(Seq<char>, Seq<char>)>::empty());
    let mut i: usize = 0;
    while i < found.list.len()
        invariant
            i <= found.list@.len(),
            f == found@,
            names == pairs_seen(found.list@),
            fields_of(list@).dom() =~= as_map(names.take(i as int)).dom(),
            forall|k: Seq<char>| #[trigger]
                fields_of(list@).contains_key(k) ==> fields_of(list@)[k] == text_else(
                    f,
                    k,
                    "offline"@,
                ),
        decreases found.list@.len() - i,
    {
        proof {
            assert(names.take(i + 1).drop_last() =~= names.take(i as int));
        }
        let ghost before = list@;
        let name = found.list[i].0.clone();
        let status = read_text_else(&found, &name, "offline");
        list.push((name, status));
        proof {
            assert(pairs_seen(list@).drop_last() =~= pairs_seen(before));
            assert(fields_of(list@) == fields_of(before).insert(name@, status@));
        }
        i = i + 1;
    }
    proof {
        assert(names.take(names.len() as int) =~= names);
        assert(fields_of(list@) =~= presence_in(body@));
    }
    list
}

/// Whether a blank line starts at a place.
pub open spec fn breaks_at(text: Seq<char>, i: int) -> bool {
    0 <= i && i + 1 < text.len() && text[i] == '\n' && text[i + 1] == '\n'
}

/// Whether a place is where the first frame of a text ends.
pub open spec fn first_break(text: Seq<char>, end: int) -> bool {
    breaks_at(text, end) && forall|i: int| 0 <= i < end ==> !#[trigger] breaks_at(text, i)
}

/// Whether no frame of a text ends.
pub open spec fn no_break(text: Seq<char>) -> bool {
    forall|i: int| 0 <= i < text.len() ==> !#[trigger] breaks_at(text, i)
}

/// The frames that a text holds, and what is left of it: a frame ends at a blank
/// line.
pub open spec fn frames_in(text: Seq<char>) -> (Seq<Seq<char>>, Seq<char>)
    decreases text.len(),
{
    if no_break(text) {
        (Seq::empty(), text)
    } else {
        let end = choose|end: int| first_break(text, end);
        if first_break(text, end) {
            let (frames, rest) = frames_in(text.skip(end + 2));
            (seq![text.take(end)] + frames, rest)
        } else {
            (Seq::empty(), text)
        }
    }
}

/// A line of a frame, without the carriage return before its end.
pub open spec fn line_at(lines: Seq<Seq<char>>, i: int) -> Seq<char> {
    if i + 1 < lines.len() && has_suffix(lines[i], "\r"@) {
        lines[i].drop_last()
    } else {
        lines[i]
    }
}

/// What stands behind a name on the first line of a frame that begins with it,
/// from a line on.
pub open spec fn value_from(lines: Seq<Seq<char>>, name: Seq<char>, i: int) -> Option<Seq<char>>
    decreases lines.len() - i,
{
    if i < 0 || i >= lines.len() {
        None
    } else if has_prefix(line_at(lines, i), name) {
        Some(line_at(lines, i).skip(name.len() as int))
    } else {
        value_from(lines, name, i + 1)
    }
}

/// What stands behind a name on the first line of a frame that begins with it.
pub open spec fn frame_value(frame: Seq<char>, name: Seq<char>) -> Option<Seq<char>> {
    value_from(split_at_char(frame, '\n'), name, 0)
}

/// The message that a text holds, if it holds one. A sender that names no device
/// has but one.
pub open spec fn incoming_in(text: Seq<char>) -> Option<IncomingView> {
    match record_in(text) {
        None => None,
        Some(f) => {
            let device = if f.contains_key("sender_device"@) {
                int_field(f, "sender_device"@)
            } else {
                Some(1)
            };
            if text_field(f, "id"@) is Some && text_field(f, "sender"@) is Some && text_field(
                f,
                "body"@,
            ) is Some && moment_field(f, "created_at"@) is Some && device is Some && 0 <= device->0
                <= u32::MAX {
                Some(
                    IncomingView {
                        id: text_field(f, "id"@)->0,
                        sender: text_field(f, "sender"@)->0,
                        sender_device: device->0 as u32,
                        body: text_field(f, "body"@)->0,
                        created_at: moment_field(f, "created_at"@)->0,
                    },
                )
            } else {
                None
            }
        },
    }
}

/// The receipt that a text holds, if it holds one.
pub open spec fn receipt_in(text: Seq<char>) -> Option<ServerEventView> {
    match record_in(text) {
        None => None,
        Some(f) => if text_field(f, "id"@) is Some && text_field(f, "state"@) is Some
            && moment_field(f, "at"@) is Some {
            Some(
                ServerEventView::Receipt {
                    id: text_field(f, "id"@)->0,
                    state: text_field(f, "state"@)->0,
                    at: moment_field(f, "at"@)->0,
                },
            )
        } else {
            None
        },
    }
}

/// The event that a frame holds. Keep-alive comments and unknown kinds of event
/// hold none.
pub open spec fn event_in(frame: Seq<char>) -> Option<ServerEventView> {
    let name = match frame_value(frame, "event: "@) {
        Some(name) => name,
        None => "message"@,
    };
    let data = frame_value(frame, "data: "@);
    if name == "contacts"@ {
        Some(ServerEventView::ContactsChanged)
    } else if name == "message"@ && data is Some {
        match incoming_in(data->0) {
            Some(message) => Some(ServerEventView::Message(message)),
            None => None,
        }
    } else if name == "receipt"@ && data is Some {
        receipt_in(data->0)
    } else {
        None
    }
}

/// The events of some frames, in order.
pub open spec fn events_in(frames: Seq<Seq<char>>) -> Seq<ServerEventView>
    decreases frames.len(),
{
    if frames.len() == 0 {
        Seq::empty()
    } else {
        let rest = events_in(frames.drop_first());
        match event_in(frames[0]) {
            Some(event) => seq![event] + rest,
            None => rest,
        }
    }
}

/// Events as plain values.
pub open spec fn events_seen(list: Seq<ServerEvent>) -> Seq<ServerEventView> {
    list.map_values(|e: ServerEvent| e@)
}

/// A number as a moment, if it fits.
fn fitting_moment(n: Option<i128>) -> (at: Option<i64>)
    ensures
        at == (match n {
            Some(n) => as_moment(n as int),
            None => None,
        }),
{
    match n {
        Some(n) => if n >= -0x8000_0000_0000_0000 && n <= 0x7fff_ffff_ffff_ffff {
            Some(n as i64)
        } else {
            None
        },
        None => None,
    }
}

/// Reads a message.
fn read_incoming(text: &str) -> (message: Option<IncomingMessage>)
    ensures
        match message {
            Some(message) => incoming_in(text@) == Some(message@),
            None => incoming_in(text@) is None,
        },
{
    let fields = match read_record(text) {
        Some(fields) => fields,
        None => {
            return None;
        },
    };
    let device: i128 = match fields.raw("sender_device") {
        Some(_) => match fields.number("sender_device") {
            Some(n) => n,
            None => {
                return None;
            },
        },
        None => 1,
    };
    if device < 0 || device > 0xffff_ffff {
        return None;
    }
    match (
        fields.text("id"),
        fields.text("sender"),
        fields.text("body"),
        fitting_moment(fields.number("created_at")),
    ) {
        (Some(id), Some(sender), Some(body), Some(created_at)) => Some(
            IncomingMessage { id, sender, sender_device: device as u32, body, created_at },
        ),
        _ => None,
    }
}

/// Reads a receipt.
fn read_receipt(text: &str) -> (event: Option<ServerEvent>)
    ensures
        match event {
            Some(event) => receipt_in(text@) == Some(event@),
            None => receipt_in(text@) is None,
        },
{
    let fields = match read_record(text) {
        Some(fields) => fields,
        None => {
            return None;
        },
    };
    match (fields.text("id"), fields.text("state"), fitting_moment(fields.number("at"))) {
        (Some(id), Some(state), Some(at)) => Some(ServerEvent::Receipt { id, state, at }),
        _ => None,
    }
}

/// What stands behind a name on the first line that begins with it.
fn find_value(lines: &Vec<String>, name: &str) -> (value: Option<String>)
    ensures
        text_in(value) == value_from(texts(lines@), name@, 0),
{
    let ghost all = texts(lines@);
    let mut i: usize = 0;
    while i < lines.len()
        invariant
            i <= lines@.len(),
            all == texts(lines@),
            value_from(all, name@, 0) == value_from(all, name@, i as int),
        decreases lines@.len() - i,
    {
        assert(all[i as int] == lines@[i as int]@);
        let stripped = if i + 1 < lines.len() {
            strip_suffix(&lines[i], "\r")
        } else {
            None
        };
        let line = match stripped {
            Some(line) => line,
            None => lines[i].clone(),
        };
        proof {
            reveal_strlit("\r");
            assert(line@ =~= line_at(all, i as int));
        }
        if let Some(value) = strip_prefix(&line, name) {
            return Some(value);
        }
        i = i + 1;
    }
    None
}

/// Reads the event that a frame holds.
pub fn read_event(frame: &str) -> (event: Option<ServerEvent>)
    ensures
        match event {
            Some(event) => event_in(frame@) == Some(event@),
            None => event_in(frame@) is None,
        },
{
    let lines = split(frame, '\n');
    let name = match find_value(&lines, "event: ") {
        Some(name) => name,
        None => "message".to_string(),
    };
    let data = find_value(&lines, "data: ");
    if same_text(&name, "contacts") {
        return Some(ServerEvent::ContactsChanged);
    }
    match data {
        None => None,
        Some(data) => if same_text(&name, "message") {
            match read_incoming(&data) {
                Some(message) => Some(ServerEvent::Message(message)),
                None => None,
            }
        } else if same_text(&name, "receipt") {
            read_receipt(&data)
        } else {
            None
        },
    }
}

/// What came down the stream and is not a whole frame yet.
pub struct EventBuffer {
    pub text: String,
}

pub(crate) proof fn lemma_break_is_the_first(text: Seq<char>, end: int)
    requires
        first_break(text, end),
    ensures
        !no_break(text),
        frames_in(text).0 == seq![text.take(end)] + frames_in(text.skip(end + 2)).0,
        frames_in(text).1 == frames_in(text.skip(end + 2)).1,
{
    assert(breaks_at(text, end));
    let found = choose|found: int| first_break(text, found);
    assert(first_break(text, found));
    if found < end {
        assert(!breaks_at(text, found));
    }
    if end < found {
        assert(!breaks_at(text, end));
    }
}

impl EventBuffer {
    /// Nothing came yet.
    pub fn new() -> (buffer: EventBuffer)
        ensures
            buffer.text@.len() == 0,
    {
        EventBuffer { text: String::new() }
    }

    /// Takes what came down the stream, and hands out the events of the frames
    /// that it completes.
    pub fn feed(&mut self, chunk: &str) -> (events: Vec<ServerEvent>)
        ensures
            events_seen(events@) == events_in(frames_in(old(self).text@ + chunk@).0),
            final(self).text@ == frames_in(old(self).text@ + chunk@).1,
    {
        let joined = join2(&self.text, chunk);
        let chars = chars_of(&joined);
        let ghost all = chars@;
        let mut events: Vec<ServerEvent> = Vec::new();
        let mut start: usize = 0;
        let mut at: usize = 0;
        proof {
            assert(all.skip(0) =~= all);
            assert(events_seen(events@) =~= Seq::<ServerEventView>::empty());
        }
        while at < chars.len()
            invariant
                chars@ == all,
                start <= at <= all.len(),
                forall|i: int| 0 <= i < at - start ==> !#[trigger] breaks_at(all.skip(start as int), i),
                events_in(frames_in(all).0) == events_seen(events@) + events_in(
                    frames_in(all.skip(start as int)).0,
                ),
                frames_in(all).1 == frames_in(all.skip(start as int)).1,
            decreases all.len() - at,
        {
            if at + 1 < chars.len() && chars[at] == '\n' && chars[at + 1] == '\n' {
                let frame = slice_text(&chars, start, at);
                let ghost rest = all.skip(start as int);
                let ghost end = at - start;
                let ghost before = events@;
                proof {
                    assert(breaks_at(rest, end));
                    assert(first_break(rest, end));
                    lemma_break_is_the_first(rest, end);
                    assert(frame@ =~= rest.take(end));
                    assert(rest.skip(end + 2) =~= all.skip(at + 2));
                    let frames = frames_in(rest).0;
                    assert(frames[0] == rest.take(end));
                    assert(frames.drop_first() =~= frames_in(all.skip(at + 2)).0);
                }
                let found = read_event(&frame);
                match found {
                    Some(event) => {
                        events.push(event);
                        assert(events_seen(events@) =~= events_seen(before).push(event@));
                        assert(events_seen(events@) + events_in(frames_in(all.skip(at + 2)).0)
                            =~= events_seen(before) + (seq![event@] + events_in(
                            frames_in(all.skip(at + 2)).0,
                        )));
                    },
                    None => {},
                }
                start = at + 2;
                at = at + 2;
            } else {
                proof {
                    let rest = all.skip(start as int);
                    let end = at - start;
                    assert(!breaks_at(rest, end)) by {
                        assert(rest[end] == all[at as int]);
                        if end + 1 < rest.len() {
                            assert(rest[end + 1] == all[at + 1]);
                        }
                    }
                }
                at = at + 1;
            }
        }
        let ghost rest = all.skip(start as int);
        self.text = slice_text(&chars, start, chars.len());
        proof {
            assert(no_break(rest));
            assert(frames_in(rest) == (Seq::<Seq<char>>::empty(), rest));
            assert(self.text@ =~= rest);
            assert(events_seen(events@) + Seq::<ServerEventView>::empty() =~= events_seen(events@));
        }
        events
    }
}

/// It makes no difference how the stream is cut up: what comes in two pieces
/// makes the same frames, and leaves the same rest, as the two in one.
pub proof fn chunks_do_not_matter(a: Seq<char>, b: Seq<char>)
    ensures
        frames_in(a + b).0 == frames_in(a).0 + frames_in(frames_in(a).1 + b).0,
        frames_in(a + b).1 == frames_in(frames_in(a).1 + b).1,
        events_in(frames_in(a + b).0) == events_in(frames_in(a).0) + events_in(
            frames_in(frames_in(a).1 + b).0,
        ),
    decreases a.len(),
{
    if no_break(a) {
        assert(frames_in(a).0 + frames_in(a + b).0 =~= frames_in(a + b).0);
    } else {
        lemma_some_break(a);
        let end = choose|end: int| first_break(a, end);
        let whole = a + b;
        assert(first_break(whole, end)) by {
            assert(breaks_at(whole, end));
            assert forall|i: int| 0 <= i < end implies !#[trigger] breaks_at(whole, i) by {
                assert(!breaks_at(a, i));
            }
        }
        lemma_break_is_the_first(a, end);
        lemma_break_is_the_first(whole, end);
        assert(whole.skip(end + 2) =~= a.skip(end + 2) + b);
        assert(whole.take(end) =~= a.take(end));
        chunks_do_not_matter(a.skip(end + 2), b);
        assert(frames_in(whole).0 =~= frames_in(a).0 + frames_in(frames_in(a).1 + b).0);
    }
    lemma_events_add_up(frames_in(a).0, frames_in(frames_in(a).1 + b).0);
}

proof fn lemma_some_break(text: Seq<char>)
    requires
        !no_break(text),
    ensures
        exists|end: int| first_break(text, end),
{
    let at = choose|i: int| 0 <= i < text.len() && breaks_at(text, i);
    lemma_break_up_to(text, at);
}

proof fn lemma_break_up_to(text: Seq<char>, at: int)
    requires
        breaks_at(text, at),
    ensures
        exists|end: int| first_break(text, end),
    decreases at,
{
    if forall|i: int| 0 <= i < at ==> !#[trigger] breaks_at(text, i) {
        assert(first_break(text, at));
    } else {
        let earlier = choose|i: int| 0 <= i < at && #[trigger] breaks_at(text, i);
        lemma_break_up_to(text, earlier);
    }
}

proof fn lemma_events_add_up(a: Seq<Seq<char>>, b: Seq<Seq<char>>)
    ensures
        events_in(a + b) == events_in(a) + events_in(b),
    decreases a.len(),
{
    if a.len() == 0 {
        assert(a + b =~= b);
        assert(events_in(a) + events_in(b) =~= events_in(b));
    } else {
        assert((a + b).drop_first() =~= a.drop_first() + b);
        assert((a + b)[0] == a[0]);
        lemma_events_add_up(a.drop_first(), b);
        assert(events_in(a + b) =~= events_in(a) + events_in(b));
    }
}

} // verus!
