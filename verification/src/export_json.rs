//! Conversations as they travel inside an exported file.
use vstd::prelude::*;

#[allow(unused_imports)]
use crate::db::MessageView;
use crate::db::StoredMessage;
use crate::json::{read_list, read_record, write_value, Fields, Json};
#[allow(unused_imports)]
use crate::json::{
    bool_field, fields_nested, int_field, list_in, members_nested, nested, optional_int,
    optional_text, ordinary, reads_back, record_in, text_field, written, JsonView,
};
#[allow(unused_imports)]
use crate::text::{text_in, texts};

verus! {

/// One message, as it travels inside the encrypted file.
pub struct ExportedMessage {
    pub id: String,
    pub contact: String,
    pub mine: bool,
    pub kind: String,
    pub text: String,
    pub state: String,
    pub delivered_at: Option<i64>,
    pub read_at: Option<i64>,
    pub created_at: i64,
}

impl View for ExportedMessage {
    type V = MessageView;

    open spec fn view(&self) -> MessageView {
        MessageView {
            id: self.id@,
            contact: self.contact@,
            mine: self.mine,
            kind: self.kind@,
            text: self.text@,
            state: self.state@,
            delivered_at: self.delivered_at,
            read_at: self.read_at,
            created_at: self.created_at,
        }
    }
}

impl From<&StoredMessage> for ExportedMessage {
    fn from(m: &StoredMessage) -> (message: Self) {
        ExportedMessage {
            id: m.id.clone(),
            contact: m.contact.clone(),
            mine: m.mine,
            kind: m.kind.clone(),
            text: m.text.clone(),
            state: m.state.clone(),
            delivered_at: m.delivered_at,
            read_at: m.read_at,
            created_at: m.created_at,
        }
    }
}

impl vstd::std_specs::convert::FromSpecImpl<&StoredMessage> for ExportedMessage {
    open spec fn obeys_from_spec() -> bool {
        true
    }

    open spec fn from_spec(m: &StoredMessage) -> ExportedMessage {
        ExportedMessage {
            id: m.id,
            contact: m.contact,
            mine: m.mine,
            kind: m.kind,
            text: m.text,
            state: m.state,
            delivered_at: m.delivered_at,
            read_at: m.read_at,
            created_at: m.created_at,
        }
    }
}

impl From<ExportedMessage> for StoredMessage {
    fn from(e: ExportedMessage) -> (message: Self) {
        StoredMessage {
            id: e.id,
            contact: e.contact,
            mine: e.mine,
            kind: e.kind,
            text: e.text,
            state: e.state,
            delivered_at: e.delivered_at,
            read_at: e.read_at,
            created_at: e.created_at,
        }
    }
}

impl vstd::std_specs::convert::FromSpecImpl<ExportedMessage> for StoredMessage {
    open spec fn obeys_from_spec() -> bool {
        true
    }

    open spec fn from_spec(e: ExportedMessage) -> StoredMessage {
        StoredMessage {
            id: e.id,
            contact: e.contact,
            mine: e.mine,
            kind: e.kind,
            text: e.text,
            state: e.state,
            delivered_at: e.delivered_at,
            read_at: e.read_at,
            created_at: e.created_at,
        }
    }
}

/// A contact as it travels, so an import on a device that has never spoken to
/// them still shows a name and a picture rather than a bare username.
pub struct ExportedContact {
    pub username: String,
    pub alias: String,
    pub avatar: Option<String>,
}

/// An exported contact as a plain value.
pub struct ExportedContactView {
    pub username: Seq<char>,
    pub alias: Seq<char>,
    pub avatar: Option<Seq<char>>,
}

impl View for ExportedContact {
    type V = ExportedContactView;

    open spec fn view(&self) -> ExportedContactView {
        ExportedContactView {
            username: self.username@,
            alias: self.alias@,
            avatar: text_in(self.avatar),
        }
    }
}

/// What the file contains once opened.
pub struct Export {
    /// Which account the conversations came from. Only shown to the user, so
    /// importing somebody else's file is at least noticeable.
    pub username: String,
    pub exported_at: i64,
    pub messages: Vec<ExportedMessage>,
    pub contacts: Vec<ExportedContact>,
}

/// An export as a plain value.
pub struct ExportView {
    pub username: Seq<char>,
    pub exported_at: i64,
    pub messages: Seq<MessageView>,
    pub contacts: Seq<ExportedContactView>,
}

impl View for Export {
    type V = ExportView;

    open spec fn view(&self) -> ExportView {
        ExportView {
            username: self.username@,
            exported_at: self.exported_at,
            messages: self.messages@.map_values(|m: ExportedMessage| m@),
            contacts: self.contacts@.map_values(|c: ExportedContact| c@),
        }
    }
}

/// A moment that may not have come, as JSON.
pub open spec fn moment_json(at: Option<i64>) -> JsonView {
    match at {
        Some(at) => JsonView::Int(at as int),
        None => JsonView::Null,
    }
}

/// A text that may not be there, as JSON.
pub open spec fn maybe_text_json(text: Option<Seq<char>>) -> JsonView {
    match text {
        Some(text) => JsonView::Text(text),
        None => JsonView::Null,
    }
}

/// A message as a record.
pub open spec fn message_record(m: MessageView) -> Map<Seq<char>, Seq<char>> {
    Map::empty().insert("contact"@, written(JsonView::Text(m.contact))).insert(
        "created_at"@,
        written(JsonView::Int(m.created_at as int)),
    ).insert("delivered_at"@, written(moment_json(m.delivered_at))).insert(
        "id"@,
        written(JsonView::Text(m.id)),
    ).insert("kind"@, written(JsonView::Text(m.kind))).insert(
        "mine"@,
        written(JsonView::Bool(m.mine)),
    ).insert("read_at"@, written(moment_json(m.read_at))).insert(
        "state"@,
        written(JsonView::Text(m.state)),
    ).insert("text"@, written(JsonView::Text(m.text)))
}

/// A contact as a record.
pub open spec fn contact_record(c: ExportedContactView) -> Map<Seq<char>, Seq<char>> {
    Map::empty().insert("alias"@, written(JsonView::Text(c.alias))).insert(
        "avatar"@,
        written(maybe_text_json(c.avatar)),
    ).insert("username"@, written(JsonView::Text(c.username)))
}

/// A message as JSON.
pub open spec fn message_json(m: MessageView) -> Seq<char> {
    written(JsonView::Record(message_record(m)))
}

/// A contact as JSON.
pub open spec fn contact_json(c: ExportedContactView) -> Seq<char> {
    written(JsonView::Record(contact_record(c)))
}

/// An export as a record.
pub open spec fn export_record(e: ExportView) -> Map<Seq<char>, Seq<char>> {
    Map::empty().insert(
        "contacts"@,
        written(
            JsonView::List(e.contacts.map_values(|c: ExportedContactView| contact_json(c))),
        ),
    ).insert("exported_at"@, written(JsonView::Int(e.exported_at as int))).insert(
        "messages"@,
        written(JsonView::List(e.messages.map_values(|m: MessageView| message_json(m)))),
    ).insert("username"@, written(JsonView::Text(e.username)))
}

/// An export as JSON.
pub open spec fn export_json(e: ExportView) -> Seq<char> {
    written(JsonView::Record(export_record(e)))
}

/// A number of JSON as a moment, if it fits.
pub open spec fn as_moment(n: int) -> Option<i64> {
    if i64::MIN <= n <= i64::MAX {
        Some(n as i64)
    } else {
        None
    }
}

/// The moment in a field that may be missing or hold nothing; no answer where it
/// holds anything else.
pub open spec fn maybe_moment(f: Map<Seq<char>, Seq<char>>, name: Seq<char>) -> Option<
    Option<i64>,
> {
    match optional_int(f, name) {
        Some(Some(n)) => match as_moment(n) {
            Some(at) => Some(Some(at)),
            None => None,
        },
        Some(None) => Some(None),
        None => None,
    }
}

/// The moment in a field.
pub open spec fn moment_field(f: Map<Seq<char>, Seq<char>>, name: Seq<char>) -> Option<i64> {
    match int_field(f, name) {
        Some(n) => as_moment(n),
        None => None,
    }
}

/// The text in a field, or a given one where the field is missing.
pub open spec fn text_or(f: Map<Seq<char>, Seq<char>>, name: Seq<char>, other: Seq<char>) -> Option<
    Seq<char>,
> {
    if f.contains_key(name) {
        text_field(f, name)
    } else {
        Some(other)
    }
}

/// The message that a text holds, if it holds one. What was exported before
/// delivery states existed counts as sent.
pub open spec fn message_in(text: Seq<char>) -> Option<MessageView> {
    match record_in(text) {
        None => None,
        Some(f) => if text_field(f, "id"@) is Some && text_field(f, "contact"@) is Some
            && bool_field(f, "mine"@) is Some && text_field(f, "kind"@) is Some && text_field(
            f,
            "text"@,
        ) is Some && text_or(f, "state"@, "sent"@) is Some && maybe_moment(f, "delivered_at"@) is Some
            && maybe_moment(f, "read_at"@) is Some && moment_field(f, "created_at"@) is Some {
            Some(
                MessageView {
                    id: text_field(f, "id"@)->0,
                    contact: text_field(f, "contact"@)->0,
                    mine: bool_field(f, "mine"@)->0,
                    kind: text_field(f, "kind"@)->0,
                    text: text_field(f, "text"@)->0,
                    state: text_or(f, "state"@, "sent"@)->0,
                    delivered_at: maybe_moment(f, "delivered_at"@)->0,
                    read_at: maybe_moment(f, "read_at"@)->0,
                    created_at: moment_field(f, "created_at"@)->0,
                },
            )
        } else {
            None
        },
    }
}

/// The contact that a text holds, if it holds one.
pub open spec fn contact_in(text: Seq<char>) -> Option<ExportedContactView> {
    match record_in(text) {
        None => None,
        Some(f) => if text_field(f, "username"@) is Some && text_or(f, "alias"@, ""@) is Some
            && optional_text(f, "avatar"@) is Some {
            Some(
                ExportedContactView {
                    username: text_field(f, "username"@)->0,
                    alias: text_or(f, "alias"@, ""@)->0,
                    avatar: optional_text(f, "avatar"@)->0,
                },
            )
        } else {
            None
        },
    }
}

/// The messages that a list of texts holds, if every one holds one.
pub open spec fn messages_in(items: Seq<Seq<char>>) -> Option<Seq<MessageView>>
    decreases items.len(),
{
    if items.len() == 0 {
        Some(Seq::empty())
    } else {
        match (messages_in(items.drop_last()), message_in(items.last())) {
            (Some(front), Some(last)) => Some(front.push(last)),
            _ => None,
        }
    }
}

/// The contacts that a list of texts holds, if every one holds one.
pub open spec fn contacts_in(items: Seq<Seq<char>>) -> Option<Seq<ExportedContactView>>
    decreases items.len(),
{
    if items.len() == 0 {
        Some(Seq::empty())
    } else {
        match (contacts_in(items.drop_last()), contact_in(items.last())) {
            (Some(front), Some(last)) => Some(front.push(last)),
            _ => None,
        }
    }
}

/// The items of the list in a field, if it holds one.
pub open spec fn list_field(f: Map<Seq<char>, Seq<char>>, name: Seq<char>) -> Option<
    Seq<Seq<char>>,
> {
    if f.contains_key(name) {
        list_in(f[name])
    } else {
        None
    }
}

/// The contacts of an export; none where it says nothing of them.
pub open spec fn contacts_field(f: Map<Seq<char>, Seq<char>>) -> Option<Seq<ExportedContactView>> {
    if f.contains_key("contacts"@) {
        match list_field(f, "contacts"@) {
            Some(items) => contacts_in(items),
            None => None,
        }
    } else {
        Some(Seq::empty())
    }
}

/// The messages of an export.
pub open spec fn messages_field(f: Map<Seq<char>, Seq<char>>) -> Option<Seq<MessageView>> {
    match list_field(f, "messages"@) {
        Some(items) => messages_in(items),
        None => None,
    }
}

/// The export that a text holds, if it holds one.
pub open spec fn export_in(text: Seq<char>) -> Option<ExportView> {
    match record_in(text) {
        None => None,
        Some(f) => if text_or(f, "username"@, ""@) is Some && moment_field(f, "exported_at"@) is Some
            && messages_field(f) is Some && contacts_field(f) is Some {
            Some(
                ExportView {
                    username: text_or(f, "username"@, ""@)->0,
                    exported_at: moment_field(f, "exported_at"@)->0,
                    messages: messages_field(f)->0,
                    contacts: contacts_field(f)->0,
                },
            )
        } else {
            None
        },
    }
}

proof fn lemma_message_names_differ()
    ensures
        "contact"@.len() == 7,
        "created_at"@.len() == 10,
        "delivered_at"@.len() == 12,
        "id"@.len() == 2,
        "kind"@.len() == 4,
        "kind"@[0] == 'k',
        "mine"@.len() == 4,
        "mine"@[0] == 'm',
        "read_at"@.len() == 7,
        "read_at"@[0] == 'r',
        "contact"@[0] == 'c',
        "state"@.len() == 5,
        "text"@.len() == 4,
        "text"@[0] == 't',
{
    reveal_strlit("contact");
    reveal_strlit("created_at");
    reveal_strlit("delivered_at");
    reveal_strlit("id");
    reveal_strlit("kind");
    reveal_strlit("mine");
    reveal_strlit("read_at");
    reveal_strlit("state");
    reveal_strlit("text");
}

proof fn lemma_export_names_differ()
    ensures
        "alias"@.len() == 5,
        "avatar"@.len() == 6,
        "username"@.len() == 8,
        "contacts"@.len() == 8,
        "contacts"@[0] == 'c',
        "username"@[0] == 'u',
        "exported_at"@.len() == 11,
        "messages"@.len() == 8,
        "messages"@[0] == 'm',
{
    reveal_strlit("alias");
    reveal_strlit("avatar");
    reveal_strlit("username");
    reveal_strlit("contacts");
    reveal_strlit("exported_at");
    reveal_strlit("messages");
}

/// One more field that holds a moment that may not have come.
fn put_moment(fields: &mut Fields, name: &str, at: Option<i64>)
    requires
        ordinary(name@),
        fields_nested(old(fields)@, 0),
    ensures
        final(fields)@ == old(fields)@.insert(name@, written(moment_json(at))),
        reads_back(moment_json(at)),
        fields_nested(final(fields)@, 0),
{
    match at {
        Some(at) => fields.put_int(name, at, Ghost(0)),
        None => fields.put_null(name, Ghost(0)),
    }
}

/// Writes a message down, so that it reads back as it was.
fn write_message(m: &ExportedMessage) -> (text: String)
    ensures
        text@ == message_json(m@),
        message_in(text@) == Some(m@),
        nested(text@, 1),
{
    proof {
        lemma_message_names_differ();
    }
    let mut fields = Fields::new();
    proof {
        reveal_strlit("contact");
        reveal_strlit("created_at");
        reveal_strlit("delivered_at");
        reveal_strlit("id");
        reveal_strlit("kind");
        reveal_strlit("mine");
        reveal_strlit("read_at");
        reveal_strlit("state");
        reveal_strlit("text");
    }
    fields.put_text("contact", &m.contact, Ghost(0));
    fields.put_int("created_at", m.created_at, Ghost(0));
    put_moment(&mut fields, "delivered_at", m.delivered_at);
    fields.put_text("id", &m.id, Ghost(0));
    fields.put_text("kind", &m.kind, Ghost(0));
    fields.put_bool("mine", m.mine, Ghost(0));
    put_moment(&mut fields, "read_at", m.read_at);
    fields.put_text("state", &m.state, Ghost(0));
    fields.put_text("text", &m.text, Ghost(0));
    assert(fields@ == message_record(m@));
    fields.finish(Ghost(0))
}

/// Writes a contact down, so that it reads back as it was.
fn write_contact(c: &ExportedContact) -> (text: String)
    ensures
        text@ == contact_json(c@),
        contact_in(text@) == Some(c@),
        nested(text@, 1),
{
    proof {
        lemma_export_names_differ();
    }
    let mut fields = Fields::new();
    proof {
        reveal_strlit("alias");
        reveal_strlit("avatar");
        reveal_strlit("username");
    }
    fields.put_text("alias", &c.alias, Ghost(0));
    match &c.avatar {
        Some(avatar) => fields.put_text("avatar", avatar, Ghost(0)),
        None => fields.put_null("avatar", Ghost(0)),
    }
    fields.put_text("username", &c.username, Ghost(0));
    assert(fields@ == contact_record(c@));
    fields.finish(Ghost(0))
}

/// A number as a moment, if it fits.
fn to_moment(n: i128) -> (at: Option<i64>)
    ensures
        at == as_moment(n as int),
{
    if n < -0x8000_0000_0000_0000 || n > 0x7fff_ffff_ffff_ffff {
        None
    } else {
        Some(n as i64)
    }
}

/// The moment in a field that may be missing or hold nothing.
fn read_moment(fields: &Fields, name: &str) -> (at: Option<Option<i64>>)
    ensures
        at == maybe_moment(fields@, name@),
{
    match fields.maybe_int(name) {
        Some(Some(n)) => match to_moment(n) {
            Some(at) => Some(Some(at)),
            None => None,
        },
        Some(None) => Some(None),
        None => None,
    }
}

/// The text in a field, or a given one where the field is missing.
fn read_text_or(fields: &Fields, name: &str, other: &str) -> (text: Option<String>)
    ensures
        match text {
            Some(text) => text_or(fields@, name@, other@) == Some(text@),
            None => text_or(fields@, name@, other@) is None,
        },
{
    match fields.raw(name) {
        Some(_) => fields.text(name),
        None => Some(other.to_string()),
    }
}

/// Reads a message.
fn read_message(text: &str) -> (message: Option<ExportedMessage>)
    ensures
        match message {
            Some(message) => message_in(text@) == Some(message@),
            None => message_in(text@) is None,
        },
{
    let fields = match read_record(text) {
        Some(fields) => fields,
        None => {
            return None;
        },
    };
    let created_at = match fields.number("created_at") {
        Some(n) => to_moment(n),
        None => None,
    };
    let moments = (
        read_moment(&fields, "delivered_at"),
        read_moment(&fields, "read_at"),
        created_at,
    );
    match (
        fields.text("id"),
        fields.text("contact"),
        fields.flag("mine"),
        fields.text("kind"),
        fields.text("text"),
        read_text_or(&fields, "state", "sent"),
    ) {
        (Some(id), Some(contact), Some(mine), Some(kind), Some(text), Some(state)) => match moments {
            (Some(delivered_at), Some(read_at), Some(created_at)) => Some(
                ExportedMessage {
                    id,
                    contact,
                    mine,
                    kind,
                    text,
                    state,
                    delivered_at,
                    read_at,
                    created_at,
                },
            ),
            _ => None,
        },
        _ => None,
    }
}

/// Reads a contact.
fn read_contact(text: &str) -> (contact: Option<ExportedContact>)
    ensures
        match contact {
            Some(contact) => contact_in(text@) == Some(contact@),
            None => contact_in(text@) is None,
        },
{
    let fields = match read_record(text) {
        Some(fields) => fields,
        None => {
            return None;
        },
    };
    match (
        fields.text("username"),
        read_text_or(&fields, "alias", ""),
        fields.maybe_text("avatar"),
    ) {
        (Some(username), Some(alias), Some(avatar)) => Some(
            ExportedContact { username, alias, avatar },
        ),
        _ => None,
    }
}

/// Writes messages down as a list.
fn write_messages(list: &Vec<ExportedMessage>) -> (text: String)
    ensures
        text@ == written(
            JsonView::List(
                list@.map_values(|m: ExportedMessage| m@).map_values(
                    |m: MessageView| message_json(m),
                ),
            ),
        ),
        list_in(text@) is Some,
        messages_in(list_in(text@)->0) == Some(list@.map_values(|m: ExportedMessage| m@)),
        nested(text@, 2),
{
    let mut items: Vec<String> = Vec::new();
    let mut i: usize = 0;
    let ghost views = list@.map_values(|m: ExportedMessage| m@);
    while i < list.len()
        invariant
            i <= list@.len(),
            views == list@.map_values(|m: ExportedMessage| m@),
            items@.len() == i,
            forall|j: int| 0 <= j < i ==> (#[trigger] items@[j])@ == message_json(views[j]),
            forall|j: int| 0 <= j < i ==> nested((#[trigger] items@[j])@, 1),
            messages_in(texts(items@)) == Some(views.take(i as int)),
        decreases list@.len() - i,
    {
        let text = write_message(&list[i]);
        let ghost before = items@;
        let ghost item = text@;
        items.push(text);
        proof {
            assert(texts(items@).drop_last() =~= texts(before));
            assert(texts(items@).last() == item);
            assert(views.take(i + 1) =~= views.take(i as int).push(views[i as int]));
        }
        i = i + 1;
    }
    let value = Json::List(items);
    proof {
        assert(views.take(views.len() as int) =~= views);
        assert(texts(items@) =~= views.map_values(|m: MessageView| message_json(m)));
        assert forall|j: int| 0 <= j < texts(items@).len() implies nested(
            #[trigger] texts(items@)[j],
            1,
        ) by {
            assert(texts(items@)[j] == items@[j]@);
        }
        assert(members_nested(value@, 2));
    }
    write_value(&value, Ghost(2))
}

/// Writes contacts down as a list.
fn write_contacts(list: &Vec<ExportedContact>) -> (text: String)
    ensures
        text@ == written(
            JsonView::List(
                list@.map_values(|c: ExportedContact| c@).map_values(
                    |c: ExportedContactView| contact_json(c),
                ),
            ),
        ),
        list_in(text@) is Some,
        contacts_in(list_in(text@)->0) == Some(list@.map_values(|c: ExportedContact| c@)),
        nested(text@, 2),
{
    let mut items: Vec<String> = Vec::new();
    let mut i: usize = 0;
    let ghost views = list@.map_values(|c: ExportedContact| c@);
    while i < list.len()
        invariant
            i <= list@.len(),
            views == list@.map_values(|c: ExportedContact| c@),
            items@.len() == i,
            forall|j: int| 0 <= j < i ==> (#[trigger] items@[j])@ == contact_json(views[j]),
            forall|j: int| 0 <= j < i ==> nested((#[trigger] items@[j])@, 1),
            contacts_in(texts(items@)) == Some(views.take(i as int)),
        decreases list@.len() - i,
    {
        let text = write_contact(&list[i]);
        let ghost before = items@;
        let ghost item = text@;
        items.push(text);
        proof {
            assert(texts(items@).drop_last() =~= texts(before));
            assert(texts(items@).last() == item);
            assert(views.take(i + 1) =~= views.take(i as int).push(views[i as int]));
        }
        i = i + 1;
    }
    let value = Json::List(items);
    proof {
        assert(views.take(views.len() as int) =~= views);
        assert(texts(items@) =~= views.map_values(|c: ExportedContactView| contact_json(c)));
        assert forall|j: int| 0 <= j < texts(items@).len() implies nested(
            #[trigger] texts(items@)[j],
            1,
        ) by {
            assert(texts(items@)[j] == items@[j]@);
        }
        assert(members_nested(value@, 2));
    }
    write_value(&value, Ghost(2))
}

/// Writes an export down, so that it reads back as it was.
pub fn write_export(e: &Export) -> (text: String)
    ensures
        text@ == export_json(e@),
        export_in(text@) == Some(e@),
{
    proof {
        lemma_export_names_differ();
    }
    let contacts = write_contacts(&e.contacts);
    let messages = write_messages(&e.messages);
    let mut fields = Fields::new();
    proof {
        reveal_strlit("contacts");
        reveal_strlit("exported_at");
        reveal_strlit("messages");
        reveal_strlit("username");
    }
    fields.put_raw("contacts", contacts);
    fields.put_int("exported_at", e.exported_at, Ghost(2));
    fields.put_raw("messages", messages);
    fields.put_text("username", &e.username, Ghost(2));
    assert(fields@ == export_record(e@));
    fields.finish(Ghost(2))
}

/// Reads messages.
fn read_messages(items: &Vec<String>) -> (list: Option<Vec<ExportedMessage>>)
    ensures
        match list {
            Some(list) => messages_in(texts(items@)) == Some(
                list@.map_values(|m: ExportedMessage| m@),
            ),
            None => messages_in(texts(items@)) is None,
        },
{
    let mut list: Vec<ExportedMessage> = Vec::new();
    let ghost all = texts(items@);
    let mut i: usize = 0;
    assert(all.take(0) =~= Seq::<Seq<char>>::empty());
    assert(list@.map_values(|m: ExportedMessage| m@) =~= Seq::<MessageView>::empty());
    while i < items.len()
        invariant
            i <= items@.len(),
            all == texts(items@),
            messages_in(all.take(i as int)) == Some(list@.map_values(|m: ExportedMessage| m@)),
        decreases items@.len() - i,
    {
        proof {
            assert(all.take(i + 1).drop_last() =~= all.take(i as int));
            assert(all.take(i + 1).last() == items@[i as int]@);
        }
        match read_message(&items[i]) {
            Some(message) => {
                let ghost before = list@;
                list.push(message);
                assert(list@.map_values(|m: ExportedMessage| m@) =~= before.map_values(
                    |m: ExportedMessage| m@,
                ).push(message@));
            },
            None => {
                proof {
                    lemma_no_messages(all, i + 1);
                }
                return None;
            },
        }
        i = i + 1;
    }
    assert(all.take(all.len() as int) =~= all);
    Some(list)
}

proof fn lemma_no_messages(items: Seq<Seq<char>>, n: int)
    requires
        0 <= n <= items.len(),
        messages_in(items.take(n)) is None,
    ensures
        messages_in(items) is None,
    decreases items.len(),
{
    if n < items.len() {
        assert(items.drop_last().take(n) =~= items.take(n));
        lemma_no_messages(items.drop_last(), n);
    } else {
        assert(items.take(n) =~= items);
    }
}

proof fn lemma_no_contacts(items: Seq<Seq<char>>, n: int)
    requires
        0 <= n <= items.len(),
        contacts_in(items.take(n)) is None,
    ensures
        contacts_in(items) is None,
    decreases items.len(),
{
    if n < items.len() {
        assert(items.drop_last().take(n) =~= items.take(n));
        lemma_no_contacts(items.drop_last(), n);
    } else {
        assert(items.take(n) =~= items);
    }
}

/// Reads contacts.
fn read_contacts(items: &Vec<String>) -> (list: Option<Vec<ExportedContact>>)
    ensures
        match list {
            Some(list) => contacts_in(texts(items@)) == Some(
                list@.map_values(|c: ExportedContact| c@),
            ),
            None => contacts_in(texts(items@)) is None,
        },
{
    let mut list: Vec<ExportedContact> = Vec::new();
    let ghost all = texts(items@);
    let mut i: usize = 0;
    assert(all.take(0) =~= Seq::<Seq<char>>::empty());
    assert(list@.map_values(|c: ExportedContact| c@) =~= Seq::<ExportedContactView>::empty());
    while i < items.len()
        invariant
            i <= items@.len(),
            all == texts(items@),
            contacts_in(all.take(i as int)) == Some(list@.map_values(|c: ExportedContact| c@)),
        decreases items@.len() - i,
    {
        proof {
            assert(all.take(i + 1).drop_last() =~= all.take(i as int));
            assert(all.take(i + 1).last() == items@[i as int]@);
        }
        match read_contact(&items[i]) {
            Some(contact) => {
                let ghost before = list@;
                list.push(contact);
                assert(list@.map_values(|c: ExportedContact| c@) =~= before.map_values(
                    |c: ExportedContact| c@,
                ).push(contact@));
            },
            None => {
                proof {
                    lemma_no_contacts(all, i + 1);
                }
                return None;
            },
        }
        i = i + 1;
    }
    assert(all.take(all.len() as int) =~= all);
    Some(list)
}

/// Reads an export.
pub fn read_export(text: &str) -> (export: Option<Export>)
    ensures
        match export {
            Some(export) => export_in(text@) == Some(export@),
            None => export_in(text@) is None,
        },
{
    let fields = match read_record(text) {
        Some(fields) => fields,
        None => {
            return None;
        },
    };
    let messages = match fields.raw("messages") {
        Some(raw) => match read_list(raw) {
            Some(items) => read_messages(&items),
            None => None,
        },
        None => None,
    };
    let contacts = match fields.raw("contacts") {
        Some(raw) => match read_list(raw) {
            Some(items) => read_contacts(&items),
            None => None,
        },
        None => Some(Vec::new()),
    };
    let exported_at = match fields.number("exported_at") {
        Some(n) => to_moment(n),
        None => None,
    };
    proof {
        let none: Seq<ExportedContact> = Seq::empty();
        assert(none.map_values(|c: ExportedContact| c@) =~= Seq::<ExportedContactView>::empty());
    }
    match (read_text_or(&fields, "username", ""), exported_at, messages, contacts) {
        (Some(username), Some(exported_at), Some(messages), Some(contacts)) => Some(
            Export { username, exported_at, messages, contacts },
        ),
        _ => None,
    }
}

/// An exported message is read as it was written, each part under its own name.
pub proof fn an_exported_message_is_read_by_its_names(
    text: Seq<char>,
    f: Map<Seq<char>, Seq<char>>,
    at: i64,
    m: ExportedMessage,
)
    requires
        record_in(text) == Some(f),
        text_field(f, "id"@) is Some,
        text_field(f, "contact"@) is Some,
        bool_field(f, "mine"@) is Some,
        text_field(f, "kind"@) is Some,
        text_field(f, "text"@) is Some,
        text_field(f, "state"@) is Some,
        optional_int(f, "delivered_at"@) matches Some(n) && (n is Some ==> i64::MIN <= n->0
            <= i64::MAX),
        optional_int(f, "read_at"@) matches Some(n) && (n is Some ==> i64::MIN <= n->0 <= i64::MAX),
        int_field(f, "created_at"@) == Some(at as int),
        message_in(text) is Some ==> message_in(text) == Some(m@),
    ensures
        message_in(text) is Some,
        m.id@ == text_field(f, "id"@)->0,
        m.contact@ == text_field(f, "contact"@)->0,
        m.mine == bool_field(f, "mine"@)->0,
        m.kind@ == text_field(f, "kind"@)->0,
        m.text@ == text_field(f, "text"@)->0,
        m.state@ == text_field(f, "state"@)->0,
        m.delivered_at is Some == optional_int(f, "delivered_at"@)->0 is Some,
        m.delivered_at is Some ==> m.delivered_at->0 == optional_int(f, "delivered_at"@)->0->0,
        m.read_at is Some == optional_int(f, "read_at"@)->0 is Some,
        m.read_at is Some ==> m.read_at->0 == optional_int(f, "read_at"@)->0->0,
        m.created_at == at,
{
}

/// An exported contact is read as it was written.
pub proof fn an_exported_contact_is_read_by_its_names(
    text: Seq<char>,
    f: Map<Seq<char>, Seq<char>>,
    c: ExportedContact,
)
    requires
        record_in(text) == Some(f),
        text_field(f, "username"@) is Some,
        text_field(f, "alias"@) is Some,
        optional_text(f, "avatar"@) is Some,
        contact_in(text) is Some ==> contact_in(text) == Some(c@),
    ensures
        contact_in(text) is Some,
        c.username@ == text_field(f, "username"@)->0,
        c.alias@ == text_field(f, "alias"@)->0,
        text_in(c.avatar) == optional_text(f, "avatar"@)->0,
{
}

/// An export is read whole: who it is of and of when, and every message and every
/// contact in it, in order.
pub proof fn an_export_is_read_whole(
    text: Seq<char>,
    f: Map<Seq<char>, Seq<char>>,
    at: i64,
    messages: Seq<Seq<char>>,
    contacts: Seq<Seq<char>>,
    i: int,
)
    requires
        record_in(text) == Some(f),
        text_field(f, "username"@) is Some,
        int_field(f, "exported_at"@) == Some(at as int),
        f.contains_key("messages"@),
        list_in(f["messages"@]) == Some(messages),
        f.contains_key("contacts"@),
        list_in(f["contacts"@]) == Some(contacts),
        forall|j: int| 0 <= j < messages.len() ==> message_in(#[trigger] messages[j]) is Some,
        forall|j: int| 0 <= j < contacts.len() ==> contact_in(#[trigger] contacts[j]) is Some,
    ensures
        export_in(text) is Some,
        export_in(text)->0.username == text_field(f, "username"@)->0,
        export_in(text)->0.exported_at == at,
        export_in(text)->0.messages.len() == messages.len(),
        0 <= i < messages.len() ==> Some(export_in(text)->0.messages[i]) == message_in(messages[i]),
        export_in(text)->0.contacts.len() == contacts.len(),
        0 <= i < contacts.len() ==> Some(export_in(text)->0.contacts[i]) == contact_in(contacts[i]),
{
    lemma_all_messages_read(messages, i);
    lemma_all_contacts_read(contacts, i);
}

proof fn lemma_all_messages_read(items: Seq<Seq<char>>, i: int)
    requires
        forall|j: int| 0 <= j < items.len() ==> message_in(#[trigger] items[j]) is Some,
    ensures
        messages_in(items) is Some,
        messages_in(items)->0.len() == items.len(),
        0 <= i < items.len() ==> Some(messages_in(items)->0[i]) == message_in(items[i]),
    decreases items.len(),
{
    if items.len() > 0 {
        let front = items.drop_last();
        assert forall|j: int| 0 <= j < front.len() implies message_in(#[trigger] front[j]) is Some by {
            assert(front[j] == items[j]);
        }
        lemma_all_messages_read(front, i);
        assert(items.last() == items[items.len() - 1]);
        if 0 <= i < front.len() {
            assert(front[i] == items[i]);
        }
    }
}

proof fn lemma_all_contacts_read(items: Seq<Seq<char>>, i: int)
    requires
        forall|j: int| 0 <= j < items.len() ==> contact_in(#[trigger] items[j]) is Some,
    ensures
        contacts_in(items) is Some,
        contacts_in(items)->0.len() == items.len(),
        0 <= i < items.len() ==> Some(contacts_in(items)->0[i]) == contact_in(items[i]),
    decreases items.len(),
{
    if items.len() > 0 {
        let front = items.drop_last();
        assert forall|j: int| 0 <= j < front.len() implies contact_in(#[trigger] front[j]) is Some by {
            assert(front[j] == items[j]);
        }
        lemma_all_contacts_read(front, i);
        assert(items.last() == items[items.len() - 1]);
        if 0 <= i < front.len() {
            assert(front[i] == items[i]);
        }
    }
}

/// A message that is exported comes back as it was stored.
pub proof fn an_exported_message_comes_back(m: StoredMessage)
    ensures
        ({
            let out = <ExportedMessage as vstd::std_specs::convert::FromSpec<
                &StoredMessage,
            >>::from_spec(&m);
            let back = <StoredMessage as vstd::std_specs::convert::FromSpec<
                ExportedMessage,
            >>::from_spec(out);
            back == m && out@ == m@ && out.text == m.text && out.id == m.id && out.kind == m.kind
        }),
{
}

/// What an older export lacks is made up for: a message without a state was sent,
/// a contact without an alias has an empty one, and an export without contacts has
/// none.
pub proof fn what_an_older_export_lacks(f: Map<Seq<char>, Seq<char>>, name: Seq<char>, other: Seq<char>)
    ensures
        !f.contains_key(name) ==> text_or(f, name, other) == Some(other),
        f.contains_key(name) ==> text_or(f, name, other) == text_field(f, name),
        !f.contains_key("contacts"@) ==> contacts_field(f) == Some(Seq::<ExportedContactView>::empty()),
        !f.contains_key("messages"@) ==> messages_field(f) is None,
{
}

} // verus!
