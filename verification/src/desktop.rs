//! What the desktop app hands to its interface and to the system.
use vstd::prelude::*;

use crate::api::ContactEntry;
#[allow(unused_imports)]
use crate::api::ContactEntryView;
use crate::client::ClientEvent;
#[allow(unused_imports)]
use crate::client::ClientEventView;
#[allow(unused_imports)]
use crate::export_json::{maybe_text_json, moment_json};
use crate::json::{write_value, Fields, Json};
#[allow(unused_imports)]
use crate::json::{json_read, written, JsonView};
#[allow(unused_imports)]
use crate::text::text_at;
use crate::text::{chars_of, join2, same_text, slice_text};

verus! {

/// The Android notification channel for a choice of alert. Channels carry the
/// sound and vibration, and Android silences them itself when the phone is on
/// silent.
pub fn alert_channel(mode: &str) -> (channel: &'static str)
    ensures
        channel@ == (if mode@ == "sound"@ {
            "hush-messages-sound"@
        } else if mode@ == "vibrate"@ {
            "hush-messages-vibrate"@
        } else {
            "hush-messages-silent"@
        }),
{
    if same_text(mode, "sound") {
        "hush-messages-sound"
    } else if same_text(mode, "vibrate") {
        "hush-messages-vibrate"
    } else {
        "hush-messages-silent"
    }
}

/// What a notification shows of a message: a camera for a picture, and the first
/// characters of a text.
pub fn preview(kind: &str, text: &str) -> (shown: String)
    ensures
        shown@ == (if kind@ == "image"@ {
            "📷"@
        } else if text@.len() <= 120 {
            text@
        } else {
            text@.take(120)
        }),
{
    if same_text(kind, "image") {
        return "📷".to_string();
    }
    let chars = chars_of(text);
    if chars.len() <= 120 {
        return text.to_string();
    }
    let shown = slice_text(&chars, 0, 120);
    assert(shown@ =~= text@.take(120));
    shown
}

/// A contact as a record.
pub open spec fn contact_record(c: ContactEntryView) -> Map<Seq<char>, Seq<char>> {
    Map::empty().insert("alias"@, written(JsonView::Text(c.alias))).insert(
        "avatar"@,
        written(maybe_text_json(c.avatar)),
    ).insert("last_seen"@, written(moment_json(c.last_seen))).insert(
        "state"@,
        written(JsonView::Text(c.state)),
    ).insert("status"@, written(JsonView::Text(c.status))).insert(
        "username"@,
        written(JsonView::Text(c.username)),
    )
}

/// One contact as the interface reads it, with every field it reads.
pub fn contact_json(c: &ContactEntry) -> (text: String)
    ensures
        text@ == written(JsonView::Record(contact_record(c@))),
        json_read(text@) == Some(JsonView::Record(contact_record(c@))),
{
    let mut fields = Fields::new();
    proof {
        reveal_strlit("alias");
        reveal_strlit("avatar");
        reveal_strlit("last_seen");
        reveal_strlit("state");
        reveal_strlit("status");
        reveal_strlit("username");
    }
    fields.put_text("alias", &c.alias, Ghost(0));
    match &c.avatar {
        Some(avatar) => fields.put_text("avatar", avatar, Ghost(0)),
        None => fields.put_null("avatar", Ghost(0)),
    }
    match c.last_seen {
        Some(at) => fields.put_int("last_seen", at, Ghost(0)),
        None => fields.put_null("last_seen", Ghost(0)),
    }
    fields.put_text("state", &c.state, Ghost(0));
    fields.put_text("status", &c.status, Ghost(0));
    fields.put_text("username", &c.username, Ghost(0));
    assert(fields@ == contact_record(c@));
    fields.finish(Ghost(0))
}

/// The name of an event for the interface.
pub open spec fn event_name(e: ClientEventView) -> Seq<char> {
    match e {
        ClientEventView::Message { .. } => "hush://message"@,
        ClientEventView::MessageDeleted { .. } => "hush://deleted"@,
        ClientEventView::MessageResent { .. } => "hush://resent"@,
        ClientEventView::ContactsChanged => "hush://contacts"@,
        ClientEventView::Receipt { .. } => "hush://receipt"@,
        ClientEventView::IdentityChanged { .. } => "hush://identity"@,
    }
}

/// What an event carries, as a record.
pub open spec fn event_record(e: ClientEventView) -> Map<Seq<char>, Seq<char>> {
    match e {
        ClientEventView::Message { id, sender, kind, text, created_at } => Map::empty().insert(
            "created_at"@,
            written(JsonView::Int(created_at as int)),
        ).insert("id"@, written(JsonView::Text(id))).insert(
            "kind"@,
            written(JsonView::Text(kind)),
        ).insert("sender"@, written(JsonView::Text(sender))).insert(
            "text"@,
            written(JsonView::Text(text)),
        ),
        ClientEventView::MessageDeleted { id } => Map::empty().insert(
            "id"@,
            written(JsonView::Text(id)),
        ),
        ClientEventView::MessageResent { old_id, new_id } => Map::empty().insert(
            "new_id"@,
            written(JsonView::Text(new_id)),
        ).insert("old_id"@, written(JsonView::Text(old_id))),
        ClientEventView::ContactsChanged => Map::empty(),
        ClientEventView::Receipt { id, state, at } => Map::empty().insert(
            "at"@,
            written(JsonView::Int(at as int)),
        ).insert("id"@, written(JsonView::Text(id))).insert(
            "state"@,
            written(JsonView::Text(state)),
        ),
        ClientEventView::IdentityChanged { id, contact, known, published, at } => Map::empty().insert(
            "at"@,
            written(JsonView::Int(at as int)),
        ).insert("contact"@, written(JsonView::Text(contact))).insert(
            "id"@,
            written(JsonView::Text(id)),
        ).insert("known"@, written(JsonView::Text(known))).insert(
            "published"@,
            written(JsonView::Text(published)),
        ),
    }
}

/// What an event carries: a record, but for the one that says no more than its
/// name.
pub open spec fn event_value(e: ClientEventView) -> JsonView {
    match e {
        ClientEventView::ContactsChanged => JsonView::Null,
        _ => JsonView::Record(event_record(e)),
    }
}

/// An event as the interface gets it: its name, and what it carries.
pub fn interface_event(e: &ClientEvent) -> (told: (&'static str, String))
    ensures
        told.0@ == event_name(e@),
        told.1@ == written(event_value(e@)),
        json_read(told.1@) == Some(event_value(e@)),
{
    let mut fields = Fields::new();
    proof {
        reveal_strlit("created_at");
        reveal_strlit("id");
        reveal_strlit("kind");
        reveal_strlit("sender");
        reveal_strlit("text");
        reveal_strlit("new_id");
        reveal_strlit("old_id");
        reveal_strlit("at");
        reveal_strlit("state");
        reveal_strlit("contact");
        reveal_strlit("known");
        reveal_strlit("published");
    }
    let name = match e {
        ClientEvent::Message(m) => {
            fields.put_int("created_at", m.created_at, Ghost(0));
            fields.put_text("id", &m.id, Ghost(0));
            fields.put_text("kind", &m.kind, Ghost(0));
            fields.put_text("sender", &m.sender, Ghost(0));
            fields.put_text("text", &m.text, Ghost(0));
            "hush://message"
        },
        ClientEvent::MessageDeleted { id } => {
            fields.put_text("id", id, Ghost(0));
            "hush://deleted"
        },
        ClientEvent::MessageResent { old_id, new_id } => {
            fields.put_text("new_id", new_id, Ghost(0));
            fields.put_text("old_id", old_id, Ghost(0));
            "hush://resent"
        },
        ClientEvent::ContactsChanged => {
            return ("hush://contacts", write_value(&Json::Null, Ghost(0)));
        },
        ClientEvent::Receipt { id, state, at } => {
            fields.put_int("at", *at, Ghost(0));
            fields.put_text("id", id, Ghost(0));
            fields.put_text("state", state, Ghost(0));
            "hush://receipt"
        },
        ClientEvent::IdentityChanged { id, contact, known, published, at } => {
            fields.put_int("at", *at, Ghost(0));
            fields.put_text("contact", contact, Ghost(0));
            fields.put_text("id", id, Ghost(0));
            fields.put_text("known", known, Ghost(0));
            fields.put_text("published", published, Ghost(0));
            "hush://identity"
        },
    };
    assert(fields@ == event_record(e@));
    (name, fields.finish(Ghost(0)))
}

/// The units of a character in UTF-16: one, or a surrogate pair.
pub open spec fn utf16_units(c: char) -> Seq<u16> {
    let n = c as u32;
    if n < 0x1_0000 {
        seq![n as u16]
    } else {
        seq![
            (0xd800 + (n - 0x1_0000) / 0x400) as u16,
            (0xdc00 + (n - 0x1_0000) % 0x400) as u16,
        ]
    }
}

/// A text in UTF-16.
pub open spec fn utf16(text: Seq<char>) -> Seq<u16>
    decreases text.len(),
{
    if text.len() == 0 {
        Seq::empty()
    } else {
        utf16(text.drop_last()) + utf16_units(text.last())
    }
}

/// A text as the system calls of Windows take it: UTF-16 with a zero behind it.
pub fn wide(value: &str) -> (units: Vec<u16>)
    ensures
        units@ == utf16(value@).push(0),
{
    let chars = chars_of(value);
    let mut units: Vec<u16> = Vec::new();
    let mut i: usize = 0;
    assert(chars@.take(0) =~= Seq::<char>::empty());
    while i < chars.len()
        invariant
            chars@ == value@,
            i <= chars@.len(),
            units@ == utf16(chars@.take(i as int)),
        decreases chars@.len() - i,
    {
        let n: u32 = chars[i] as u32;
        proof {
            assert(chars@.take(i + 1).drop_last() =~= chars@.take(i as int));
            assert(chars@.take(i + 1).last() == chars@[i as int]);
        }
        let ghost before = units@;
        if n < 0x1_0000 {
            units.push(n as u16);
            assert(units@ =~= before + utf16_units(chars@[i as int]));
        } else {
            let m: u32 = n - 0x1_0000;
            proof {
                lemma_char_range(chars@[i as int]);
            }
            units.push((0xd800 + m / 0x400) as u16);
            units.push((0xdc00 + m % 0x400) as u16);
            assert(units@ =~= before + utf16_units(chars@[i as int]));
        }
        i = i + 1;
    }
    assert(chars@.take(chars@.len() as int) =~= chars@);
    units.push(0);
    units
}

proof fn lemma_char_range(c: char)
    ensures
        c as u32 <= 0x10_ffff,
{
    vstd::utf8::char_is_scalar(c);
}

/// The profile that the app runs with. Naming one lets several instances coexist
/// on one machine.
pub fn profile_name(setting: Option<&str>) -> (name: String)
    ensures
        name@ == (match text_at(setting) {
            Some(text) if text.len() > 0 => text,
            _ => "hush"@,
        }),
{
    match setting {
        Some(text) => if text.is_empty() {
            "hush".to_string()
        } else {
            text.to_string()
        },
        None => "hush".to_string(),
    }
}

/// The file that holds a profile's local data.
pub fn profile_file(profile: &str) -> (name: String)
    ensures
        name@ == profile@ + ".db"@,
{
    join2(profile, ".db")
}

/// The file that keeps a second copy of a profile from running.
pub fn lock_file(profile: &str) -> (name: String)
    ensures
        name@ == profile@ + ".lock"@,
{
    join2(profile, ".lock")
}

/// Seconds since the user last touched keyboard or mouse, from the milliseconds
/// that the system counts, which start over when they run out.
pub fn idle_seconds(now: u32, last_input: u32) -> (seconds: u64)
    ensures
        seconds == (if now >= last_input {
            now - last_input
        } else {
            now + 0x1_0000_0000 - last_input
        }) / 1000,
{
    let elapsed: u32 = now.wrapping_sub(last_input);
    elapsed as u64 / 1000
}

/// Whether a stream that ended is the newest one. Only that one may report a
/// disconnection, or a reconnect would look like a fresh drop and restart the
/// cycle.
pub fn reports_disconnection(mine: u64, newest: u64) -> (yes: bool)
    ensures
        yes == (mine == newest),
{
    mine == newest
}

/// What the interface is told of an event is what happened: each part under its own
/// name.
pub proof fn the_interface_is_told_what_happened(e: ClientEvent)
    ensures
        e matches ClientEvent::Message(m) ==> {
            let f = event_record(e@);
            &&& event_value(e@) == JsonView::Record(f)
            &&& f["id"@] == written(JsonView::Text(m.id@))
            &&& f["sender"@] == written(JsonView::Text(m.sender@))
            &&& f["kind"@] == written(JsonView::Text(m.kind@))
            &&& f["text"@] == written(JsonView::Text(m.text@))
            &&& f["created_at"@] == written(JsonView::Int(m.created_at as int))
            &&& event_name(e@) == "hush://message"@
        },
        e matches ClientEvent::MessageDeleted { id } ==> {
            &&& event_value(e@) == JsonView::Record(event_record(e@))
            &&& event_record(e@)["id"@] == written(JsonView::Text(id@))
            &&& event_name(e@) == "hush://deleted"@
        },
        e matches ClientEvent::MessageResent { old_id, new_id } ==> {
            &&& event_value(e@) == JsonView::Record(event_record(e@))
            &&& event_record(e@)["old_id"@] == written(JsonView::Text(old_id@))
            &&& event_record(e@)["new_id"@] == written(JsonView::Text(new_id@))
            &&& event_name(e@) == "hush://resent"@
        },
        e matches ClientEvent::Receipt { id, state, at } ==> {
            &&& event_value(e@) == JsonView::Record(event_record(e@))
            &&& event_record(e@)["id"@] == written(JsonView::Text(id@))
            &&& event_record(e@)["state"@] == written(JsonView::Text(state@))
            &&& event_record(e@)["at"@] == written(JsonView::Int(at as int))
            &&& event_name(e@) == "hush://receipt"@
        },
        e matches ClientEvent::IdentityChanged { id, contact, known, published, at } ==> {
            let f = event_record(e@);
            &&& event_value(e@) == JsonView::Record(f)
            &&& f["id"@] == written(JsonView::Text(id@))
            &&& f["contact"@] == written(JsonView::Text(contact@))
            &&& f["known"@] == written(JsonView::Text(known@))
            &&& f["published"@] == written(JsonView::Text(published@))
            &&& f["at"@] == written(JsonView::Int(at as int))
            &&& event_name(e@) == "hush://identity"@
        },
        e is ContactsChanged ==> event_name(e@) == "hush://contacts"@ && event_value(e@)
            == JsonView::Null,
{
    reveal_strlit("id");
    reveal_strlit("sender");
    reveal_strlit("kind");
    reveal_strlit("text");
    reveal_strlit("created_at");
    reveal_strlit("old_id");
    reveal_strlit("new_id");
    reveal_strlit("state");
    reveal_strlit("at");
    reveal_strlit("contact");
    reveal_strlit("known");
    reveal_strlit("published");
    assert("id"@.len() == 2 && "sender"@.len() == 6 && "kind"@.len() == 4 && "text"@.len() == 4
        && "created_at"@.len() == 10 && "old_id"@.len() == 6 && "new_id"@.len() == 6
        && "state"@.len() == 5 && "at"@.len() == 2 && "contact"@.len() == 7 && "known"@.len() == 5
        && "published"@.len() == 9);
    assert("id"@[0] == 'i' && "at"@[0] == 'a' && "kind"@[0] == 'k' && "text"@[0] == 't'
        && "old_id"@[0] == 'o' && "new_id"@[0] == 'n');
}

/// The interface is shown a contact as they are.
pub proof fn the_interface_is_shown_a_contact_as_they_are(c: ContactEntry)
    ensures
        ({
            let f = contact_record(c@);
            &&& f["username"@] == written(JsonView::Text(c.username@))
            &&& f["alias"@] == written(JsonView::Text(c.alias@))
            &&& f["state"@] == written(JsonView::Text(c.state@))
            &&& f["status"@] == written(JsonView::Text(c.status@))
            &&& c.last_seen is Some ==> f["last_seen"@] == written(
                JsonView::Int(c.last_seen->0 as int),
            )
            &&& c.last_seen is None ==> f["last_seen"@] == written(JsonView::Null)
            &&& c.avatar is Some ==> f["avatar"@] == written(JsonView::Text(c.avatar->0@))
            &&& c.avatar is None ==> f["avatar"@] == written(JsonView::Null)
        }),
{
    reveal_strlit("username");
    reveal_strlit("alias");
    reveal_strlit("state");
    reveal_strlit("status");
    reveal_strlit("last_seen");
    reveal_strlit("avatar");
    assert("username"@.len() == 8 && "alias"@.len() == 5 && "state"@.len() == 5 && "status"@.len()
        == 6 && "last_seen"@.len() == 9 && "avatar"@.len() == 6);
    assert("alias"@[0] == 'a' && "state"@[0] == 's' && "status"@[0] == 's' && "avatar"@[0] == 'a');
}

/// A character takes one unit where it fits, and otherwise two that stand for it
/// together and for nothing alone.
pub proof fn units_stand_for_their_character(c: char)
    ensures
        (c as u32) < 0x1_0000 ==> utf16_units(c).len() == 1 && utf16_units(c)[0] == c as u32,
        (c as u32) >= 0x1_0000 ==> {
            let u = utf16_units(c);
            &&& u.len() == 2
            &&& 0xd800 <= u[0] < 0xdc00
            &&& 0xdc00 <= u[1] < 0xe000
            &&& (u[0] - 0xd800) * 0x400 + (u[1] - 0xdc00) + 0x1_0000 == c as u32
        },
{
    lemma_char_range(c);
}

/// The units of a text are those of its parts, one after the other.
pub proof fn units_follow_the_text(a: Seq<char>, b: Seq<char>)
    ensures
        utf16(a + b) == utf16(a) + utf16(b),
    decreases b.len(),
{
    if b.len() == 0 {
        assert(a + b =~= a);
        assert(utf16(a) + utf16(b) =~= utf16(a));
    } else {
        assert((a + b).drop_last() =~= a + b.drop_last());
        assert((a + b).last() == b.last());
        units_follow_the_text(a, b.drop_last());
        assert(utf16(a + b) =~= utf16(a) + utf16(b));
    }
}

} // verus!
