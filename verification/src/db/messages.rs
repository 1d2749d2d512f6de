//! The message history.
#[allow(unused_imports)]
use vstd::utf8::encode_utf8;
use vstd::prelude::*;

#[allow(unused_imports)]
use crate::db::{can_seal, is_sealed, plain_message, plain_messages, DbView, MessageView};
use crate::db::{DbWrite, LocalDb, StoredMessage};
use crate::keystore::StorageError;
#[allow(unused_imports)]
use crate::table::{is_listing, keys_where, without_where};
use crate::table::{RowTest, Timed};
use crate::text::same_text;

verus! {

/// The database with other messages.
pub open spec fn with_messages(db: DbView, messages: Map<Seq<char>, MessageView>) -> DbView {
    DbView { messages, ..db }
}

/// The messages once one was added: one that is there already is left alone.
pub open spec fn message_added(messages: Map<Seq<char>, MessageView>, m: MessageView) -> Map<
    Seq<char>,
    MessageView,
> {
    if messages.contains_key(m.id) {
        messages
    } else {
        messages.insert(m.id, m)
    }
}

/// Whether a list holds each message that a question singles out, once, the
/// oldest first.
pub open spec fn is_message_list(
    list: Seq<StoredMessage>,
    messages: Map<Seq<char>, MessageView>,
    wanted: spec_fn(MessageView) -> bool,
) -> bool {
    &&& forall|i: int|
        0 <= i < list.len() ==> messages.contains_key((#[trigger] list[i])@.id) && list[i]@
            == messages[list[i]@.id] && wanted(list[i]@)
    &&& forall|i: int, j: int|
        0 <= i < j < list.len() ==> (#[trigger] list[i])@.id != (#[trigger] list[j])@.id
            && list[i]@.created_at <= list[j]@.created_at
    &&& forall|id: Seq<char>| #[trigger]
        messages.contains_key(id) && wanted(messages[id]) ==> exists|i: int|
            0 <= i < list.len() && (#[trigger] list[i])@.id == id
}

/// Whether a list holds the identifier of each message that a question singles
/// out, once.
pub open spec fn is_id_list(
    list: Seq<String>,
    messages: Map<Seq<char>, MessageView>,
    wanted: spec_fn(MessageView) -> bool,
) -> bool {
    &&& forall|i: int|
        0 <= i < list.len() ==> messages.contains_key((#[trigger] list[i])@) && wanted(
            messages[list[i]@],
        )
    &&& forall|i: int, j: int|
        0 <= i < j < list.len() ==> (#[trigger] list[i])@ != (#[trigger] list[j])@
    &&& forall|id: Seq<char>| #[trigger]
        messages.contains_key(id) && wanted(messages[id]) ==> exists|i: int|
            0 <= i < list.len() && (#[trigger] list[i])@ == id
}

/// The identifiers of the messages with a contact.
pub open spec fn conversation(messages: Map<Seq<char>, MessageView>, contact: Seq<char>) -> Set<
    Seq<char>,
> {
    keys_where(messages, |id: Seq<char>, m: MessageView| m.contact == contact)
}

/// The messages without those with a contact.
pub open spec fn without_conversation(
    messages: Map<Seq<char>, MessageView>,
    contact: Seq<char>,
) -> Map<Seq<char>, MessageView> {
    without_where(messages, |id: Seq<char>, m: MessageView| m.contact == contact)
}

/// The messages once every unread one from a contact was reported as read.
pub open spec fn all_read(messages: Map<Seq<char>, MessageView>, contact: Seq<char>, now: i64) -> Map<
    Seq<char>,
    MessageView,
> {
    Map::new(
        |id: Seq<char>| messages.contains_key(id),
        |id: Seq<char>|
            if unread(messages[id], contact) {
                state_reported(messages[id], "read"@, Some(now))
            } else {
                messages[id]
            },
    )
}

/// How far a state is.
pub open spec fn rank(state: Seq<char>) -> int {
    if state == "read"@ {
        2
    } else if state == "delivered"@ {
        1
    } else {
        0
    }
}

/// The first of two moments that is known.
pub open spec fn first_known(a: Option<i64>, b: Option<i64>) -> Option<i64> {
    if a is Some {
        a
    } else {
        b
    }
}

/// A message once its state was reported. States only move forward, so a late
/// "delivered" cannot undo a "read"; and reaching "read" implies delivery, even
/// if that notice was lost.
pub open spec fn state_reported(m: MessageView, state: Seq<char>, at: Option<i64>) -> MessageView {
    if rank(m.state) >= rank(state) {
        m
    } else {
        MessageView {
            state,
            read_at: if state == "read"@ {
                first_known(at, m.read_at)
            } else {
                m.read_at
            },
            delivered_at: first_known(m.delivered_at, at),
            ..m
        }
    }
}

/// Singles out every message.
struct Every;

impl RowTest<String, StoredMessage> for Every {
    closed spec fn holds(&self, key: Seq<char>, row: MessageView) -> bool {
        true
    }

    fn test(&self, key: &String, row: &StoredMessage) -> (yes: bool) {
        true
    }
}

/// Singles out the messages with one contact.
struct With<'a> {
    contact: &'a str,
}

impl<'a> RowTest<String, StoredMessage> for With<'a> {
    closed spec fn holds(&self, key: Seq<char>, row: MessageView) -> bool {
        row.contact == self.contact@
    }

    fn test(&self, key: &String, row: &StoredMessage) -> (yes: bool) {
        same_text(&row.contact, self.contact)
    }
}

/// Whether a message is ours to a contact, and their device never acknowledged
/// it.
pub open spec fn undelivered(m: MessageView, contact: Seq<char>) -> bool {
    m.contact == contact && m.mine && m.state == "sent"@
}

/// Singles out our messages to a contact that were never acknowledged.
struct Undelivered<'a> {
    contact: &'a str,
}

impl<'a> RowTest<String, StoredMessage> for Undelivered<'a> {
    closed spec fn holds(&self, key: Seq<char>, row: MessageView) -> bool {
        undelivered(row, self.contact@)
    }

    fn test(&self, key: &String, row: &StoredMessage) -> (yes: bool) {
        row.mine && same_text(&row.state, "sent") && same_text(&row.contact, self.contact)
    }
}

/// Whether a message came from a contact and was not reported as read.
pub open spec fn unread(m: MessageView, contact: Seq<char>) -> bool {
    m.contact == contact && !m.mine && m.state != "read"@
}

/// Singles out the messages from a contact that were not reported as read.
struct Unread<'a> {
    contact: &'a str,
}

impl<'a> RowTest<String, StoredMessage> for Unread<'a> {
    closed spec fn holds(&self, key: Seq<char>, row: MessageView) -> bool {
        unread(row, self.contact@)
    }

    fn test(&self, key: &String, row: &StoredMessage) -> (yes: bool) {
        !row.mine && !same_text(&row.state, "read") && same_text(&row.contact, self.contact)
    }
}

/// How far a state is.
fn rank_of(state: &str) -> (n: u8)
    ensures
        n == rank(state@),
{
    if same_text(state, "read") {
        2
    } else if same_text(state, "delivered") {
        1
    } else {
        0
    }
}

impl LocalDb {
    /// Adds a message, unless it is there already.
    pub fn add_message(&mut self, m: &StoredMessage) -> (done: Result<(), StorageError>)
        requires
            old(self).wf(),
        ensures
            final(self).wf(),
            final(self).key == old(self).key,
            done is Ok == can_seal(old(self).secret(), encode_utf8(m.text@).len()),
            done is Ok ==> final(self)@ == with_messages(
                old(self)@,
                message_added(old(self)@.messages, m@),
            ) && (!old(self)@.messages.contains_key(m.id@) ==> is_sealed(
                final(self).secret(),
                final(self).raw().messages[m.id@].text,
            )),
            done matches Err(e) ==> e == StorageError::TooLong && final(self).raw() == old(self).raw(),
    {
        let text = match self.seal(&m.text) {
            Ok(text) => text,
            Err(e) => {
                return Err(e);
            },
        };
        if self.messages.has(&m.id) {
            return Ok(());
        }
        let ghost before = self.raw();
        let mut row = m.copy();
        row.text = text;
        self.write(DbWrite::PutMessage { row });
        assert(plain_messages(self.secret(), self.raw().messages) =~= plain_messages(
            self.secret(),
            before.messages,
        ).insert(m.id@, m@));
        Ok(())
    }

    /// The messages at some places, as they read.
    fn read_places(&self, places: &Vec<usize>) -> (list: Vec<StoredMessage>)
        requires
            self.wf(),
            forall|i: int|
                0 <= i < places@.len() ==> (#[trigger] places@[i]) < self.messages.rows@.len(),
        ensures
            list@.len() == places@.len(),
            forall|i: int|
                0 <= i < list@.len() ==> (#[trigger] list@[i])@ == plain_message(
                    self.secret(),
                    self.messages.at_places(places@)[i].1,
                ),
    {
        let mut list: Vec<StoredMessage> = Vec::new();
        let mut i: usize = 0;
        while i < places.len()
            invariant
                self.wf(),
                forall|j: int|
                    0 <= j < places@.len() ==> (#[trigger] places@[j]) < self.messages.rows@.len(),
                i <= places@.len(),
                list@.len() == i,
                forall|j: int|
                    0 <= j < i ==> (#[trigger] list@[j])@ == plain_message(
                        self.secret(),
                        self.messages.at_places(places@)[j].1,
                    ),
            decreases places@.len() - i,
        {
            let mut m = self.messages.rows[places[i]].1.copy();
            m.text = self.unseal(&m.text);
            list.push(m);
            i = i + 1;
        }
        list
    }

    proof fn lemma_listing_reads(
        &self,
        rows: Seq<(Seq<char>, MessageView)>,
        list: Seq<StoredMessage>,
        holds: spec_fn(Seq<char>, MessageView) -> bool,
        wanted: spec_fn(MessageView) -> bool,
    )
        requires
            self.wf(),
            is_listing(rows, self.messages@, holds, |r: MessageView| StoredMessage::moment(r)),
            forall|k: Seq<char>, r: MessageView| #[trigger]
                holds(k, r) == wanted(plain_message(self.secret(), r)),
            list.len() == rows.len(),
            forall|i: int|
                0 <= i < list.len() ==> (#[trigger] list[i])@ == plain_message(
                    self.secret(),
                    rows[i].1,
                ),
        ensures
            is_message_list(list, self@.messages, wanted),
    {
        let messages = self@.messages;
        assert forall|i: int| 0 <= i < list.len() implies messages.contains_key(
            (#[trigger] list[i])@.id,
        ) && list[i]@ == messages[list[i]@.id] && wanted(list[i]@) && rows[i].0 == list[i]@.id by {
            assert(self.messages@.contains_key(rows[i].0));
            assert(self.messages@[rows[i].0].id == rows[i].0);
            assert(holds(rows[i].0, rows[i].1));
        }
        assert forall|i: int, j: int| 0 <= i < j < list.len() implies (#[trigger] list[i])@.id != (
        #[trigger] list[j])@.id && list[i]@.created_at <= list[j]@.created_at by {
            assert(rows[i].0 != rows[j].0);
            assert(rows[i].0 == list[i]@.id && rows[j].0 == list[j]@.id);
            assert(StoredMessage::moment(rows[i].1) <= StoredMessage::moment(rows[j].1));
        }
        assert forall|id: Seq<char>| #[trigger]
            messages.contains_key(id) && wanted(messages[id]) implies exists|i: int|
            0 <= i < list.len() && (#[trigger] list[i])@.id == id by {
            assert(self.messages@.contains_key(id));
            assert(holds(id, self.messages@[id]));
            let i = choose|i: int| 0 <= i < rows.len() && (#[trigger] rows[i]).0 == id;
            assert(list[i]@.id == id);
        }
    }

    /// Every stored message, the oldest first.
    pub fn all_messages(&self) -> (list: Vec<StoredMessage>)
        requires
            self.wf(),
        ensures
            is_message_list(list@, self@.messages, |m: MessageView| true),
    {
        let question = Every;
        let places = self.messages.list_where(&question);
        let list = self.read_places(&places);
        proof {
            self.lemma_listing_reads(
                self.messages.at_places(places@),
                list@,
                |k: Seq<char>, r: MessageView| question.holds(k, r),
                |m: MessageView| true,
            );
        }
        list
    }

    /// The conversation with a contact, the oldest message first.
    pub fn history(&self, contact: &str) -> (list: Vec<StoredMessage>)
        requires
            self.wf(),
        ensures
            is_message_list(list@, self@.messages, |m: MessageView| m.contact == contact@),
    {
        let question = With { contact };
        let places = self.messages.list_where(&question);
        let list = self.read_places(&places);
        proof {
            self.lemma_listing_reads(
                self.messages.at_places(places@),
                list@,
                |k: Seq<char>, r: MessageView| question.holds(k, r),
                |m: MessageView| m.contact == contact@,
            );
        }
        list
    }

    /// Our messages to a contact that the other device never acknowledged, oldest
    /// first. Used to send them again once a broken session is rebuilt.
    pub fn undelivered_to(&self, contact: &str) -> (list: Vec<StoredMessage>)
        requires
            self.wf(),
        ensures
            is_message_list(list@, self@.messages, |m: MessageView| undelivered(m, contact@)),
    {
        let question = Undelivered { contact };
        let places = self.messages.list_where(&question);
        let list = self.read_places(&places);
        proof {
            self.lemma_listing_reads(
                self.messages.at_places(places@),
                list@,
                |k: Seq<char>, r: MessageView| question.holds(k, r),
                |m: MessageView| undelivered(m, contact@),
            );
        }
        list
    }

    /// Identifiers of messages received from a contact that we have not reported
    /// as read yet.
    pub fn unread_from(&self, contact: &str) -> (list: Vec<String>)
        requires
            self.wf(),
        ensures
            is_id_list(list@, self@.messages, |m: MessageView| unread(m, contact@)),
    {
        let question = Unread { contact };
        let places = self.messages.find_where(&question);
        let mut list: Vec<String> = Vec::new();
        let mut i: usize = 0;
        while i < places.len()
            invariant
                forall|j: int|
                    0 <= j < places@.len() ==> (#[trigger] places@[j]) < self.messages.rows@.len(),
                i <= places@.len(),
                list@.len() == i,
                forall|j: int|
                    0 <= j < i ==> (#[trigger] list@[j])@
                        == self.messages.rows@[places@[j] as int].0@,
            decreases places@.len() - i,
        {
            list.push(self.messages.rows[places[i]].0.clone());
            i = i + 1;
        }
        proof {
            let messages = self@.messages;
            assert forall|i: int| 0 <= i < list@.len() implies messages.contains_key(
                (#[trigger] list@[i])@,
            ) && unread(messages[list@[i]@], contact@) by {
                let row = self.messages.rows@[places@[i] as int];
                assert(question.holds(row.0@, row.1@));
            }
            assert forall|i: int, j: int| 0 <= i < j < list@.len() implies (#[trigger] list@[i])@
                != (#[trigger] list@[j])@ by {
                assert(self.messages.rows@[places@[i] as int].0@
                    != self.messages.rows@[places@[j] as int].0@);
            }
            assert forall|id: Seq<char>| #[trigger]
                messages.contains_key(id) && unread(messages[id], contact@) implies exists|i: int|
                0 <= i < list@.len() && (#[trigger] list@[i])@ == id by {
                assert(self.messages@.contains_key(id));
                assert(question.holds(id, self.messages@[id]));
                let i = choose|i: int|
                    0 <= i < places@.len() && self.messages.rows@[(
                    #[trigger] places@[i]) as int].0@ == id;
                assert(list@[i]@ == id);
            }
        }
        list
    }

    /// Advances the delivery state of one of our messages.
    pub fn set_message_state(&mut self, id: &str, state: &str, at: Option<i64>)
        requires
            old(self).wf(),
        ensures
            final(self).wf(),
            final(self).key == old(self).key,
            final(self)@ == with_messages(
                old(self)@,
                if old(self)@.messages.contains_key(id@) {
                    old(self)@.messages.insert(
                        id@,
                        state_reported(old(self)@.messages[id@], state@, at),
                    )
                } else {
                    old(self)@.messages
                },
            ),
    {
        let name = id.to_string();
        let ghost read = self@.messages;
        let mut row = match self.messages.get(&name) {
            Some(row) => row.copy(),
            None => {
                return;
            },
        };
        if rank_of(&row.state) >= rank_of(state) {
            assert(read.insert(id@, read[id@]) =~= read);
            return;
        }
        if same_text(state, "read") {
            row.read_at = if at.is_some() {
                at
            } else {
                row.read_at
            };
        }
        row.delivered_at = if row.delivered_at.is_some() {
            row.delivered_at
        } else {
            at
        };
        row.state = state.to_string();
        self.write(DbWrite::PutMessage { row });
        assert(plain_messages(self.secret(), self.raw().messages) =~= read.insert(
            id@,
            state_reported(read[id@], state@, at),
        ));
    }

    /// Points a stored message at the identifier the server gave it when it was
    /// sent again, so the conversation keeps one entry and receipts still land.
    pub fn reassign_message_id(&mut self, was: &str, new: &str) -> (done: Result<
        (),
        StorageError,
    >)
        requires
            old(self).wf(),
        ensures
            final(self).wf(),
            final(self).key == old(self).key,
            match reassigned(old(self)@.messages, was@, new@) {
                Some(messages) => done is Ok && final(self)@ == with_messages(old(self)@, messages),
                None => done == Err::<(), StorageError>(StorageError::Duplicate) && final(self).raw()
                    == old(self).raw(),
            },
    {
        let from = was.to_string();
        let to = new.to_string();
        let ghost read = self@.messages;
        let mut row = match self.messages.get(&from) {
            Some(row) => row.copy(),
            None => {
                return Ok(());
            },
        };
        if same_text(was, new) {
            return Ok(());
        }
        if self.messages.has(&to) {
            return Err(StorageError::Duplicate);
        }
        row.id = to;
        self.write(DbWrite::DropMessage { id: from });
        self.write(DbWrite::PutMessage { row });
        assert(plain_messages(self.secret(), self.raw().messages) =~= read.remove(was@).insert(
            new@,
            MessageView { id: new@, ..read[was@] },
        ));
        Ok(())
    }

    /// Removes a message from the local history.
    pub fn delete_message(&mut self, id: &str)
        requires
            old(self).wf(),
        ensures
            final(self).wf(),
            final(self).key == old(self).key,
            final(self)@ == with_messages(old(self)@, old(self)@.messages.remove(id@)),
    {
        let ghost read = self@.messages;
        self.write(DbWrite::DropMessage { id: id.to_string() });
        assert(plain_messages(self.secret(), self.raw().messages) =~= read.remove(id@));
    }

    /// Removes the whole conversation with a contact, and tells how many messages
    /// that were.
    pub fn delete_conversation(&mut self, contact: &str) -> (count: usize)
        requires
            old(self).wf(),
        ensures
            final(self).wf(),
            final(self).key == old(self).key,
            final(self)@ == with_messages(
                old(self)@,
                without_conversation(old(self)@.messages, contact@),
            ),
            count == conversation(old(self)@.messages, contact@).len(),
    {
        let ghost read = self@.messages;
        let question = With { contact };
        let places = self.messages.find_where(&question);
        proof {
            assert(conversation(read, contact@) =~= keys_where(
                self.messages@,
                |k: Seq<char>, r: MessageView| question.holds(k, r),
            ));
        }
        let mut ids: Vec<String> = Vec::new();
        let mut i: usize = 0;
        while i < places.len()
            invariant
                forall|j: int|
                    0 <= j < places@.len() ==> (#[trigger] places@[j]) < self.messages.rows@.len(),
                i <= places@.len(),
                ids@.len() == i,
                forall|j: int|
                    0 <= j < i ==> (#[trigger] ids@[j])@
                        == self.messages.rows@[places@[j] as int].0@,
            decreases places@.len() - i,
        {
            ids.push(self.messages.rows[places[i]].0.clone());
            i = i + 1;
        }
        proof {
            assert forall|j: int| 0 <= j < ids@.len() implies read.contains_key(
                (#[trigger] ids@[j])@,
            ) && read[ids@[j]@].contact == contact@ by {
                let row = self.messages.rows@[places@[j] as int];
                assert(question.holds(row.0@, row.1@));
            }
            assert forall|id: Seq<char>| #[trigger]
                read.contains_key(id) && read[id].contact == contact@ implies exists|j: int|
                0 <= j < ids@.len() && (#[trigger] ids@[j])@ == id by {
                assert(self.messages@.contains_key(id));
                assert(question.holds(id, self.messages@[id]));
                let p = choose|p: int|
                    0 <= p < places@.len() && self.messages.rows@[(
                    #[trigger] places@[p]) as int].0@ == id;
                assert(ids@[p]@ == id);
            }
        }
        let mut k: usize = 0;
        while k < ids.len()
            invariant
                self.wf(),
                self.key == old(self).key,
                read == old(self)@.messages,
                k <= ids@.len(),
                self@ == with_messages(old(self)@, self@.messages),
                forall|j: int|
                    0 <= j < ids@.len() ==> read.contains_key((#[trigger] ids@[j])@)
                        && read[ids@[j]@].contact == contact@,
                forall|id: Seq<char>| #[trigger]
                    self@.messages.contains_key(id) <==> read.contains_key(id) && !(exists|j: int|
                        0 <= j < k && (#[trigger] ids@[j])@ == id),
                forall|id: Seq<char>| #[trigger]
                    self@.messages.contains_key(id) ==> self@.messages[id] == read[id],
            decreases ids@.len() - k,
        {
            let ghost was = self@.messages;
            let id = ids[k].clone();
            self.delete_message(&id);
            proof {
                assert forall|other: Seq<char>| #[trigger]
                    self@.messages.contains_key(other) <==> read.contains_key(other) && !(exists|
                        j: int,
                    | 0 <= j < k + 1 && (#[trigger] ids@[j])@ == other) by {
                    if was.contains_key(other) && other != ids@[k as int]@ {
                        if exists|j: int| 0 <= j < k + 1 && (#[trigger] ids@[j])@ == other {
                            let j = choose|j: int|
                                0 <= j < k + 1 && (#[trigger] ids@[j])@ == other;
                            assert(j < k);
                        }
                    }
                    if other == ids@[k as int]@ {
                        assert(ids@[k as int]@ == other);
                    }
                    if exists|j: int| 0 <= j < k && (#[trigger] ids@[j])@ == other {
                        let j = choose|j: int| 0 <= j < k && (#[trigger] ids@[j])@ == other;
                        assert(ids@[j]@ == other);
                    }
                }
            }
            k = k + 1;
        }
        assert(self@.messages =~= without_conversation(read, contact@));
        ids.len()
    }

    /// Reports every unread message from a contact as read, and names them.
    pub fn mark_conversation_read(&mut self, contact: &str, now: i64) -> (ids: Vec<String>)
        requires
            old(self).wf(),
        ensures
            final(self).wf(),
            final(self).key == old(self).key,
            is_id_list(ids@, old(self)@.messages, |m: MessageView| unread(m, contact@)),
            final(self)@ == with_messages(
                old(self)@,
                all_read(old(self)@.messages, contact@, now),
            ),
    {
        let ids = self.unread_from(contact);
        let ghost read = self@.messages;
        let mut k: usize = 0;
        while k < ids.len()
            invariant
                self.wf(),
                self.key == old(self).key,
                read == old(self)@.messages,
                is_id_list(ids@, read, |m: MessageView| unread(m, contact@)),
                k <= ids@.len(),
                self@ == with_messages(old(self)@, self@.messages),
                self@.messages.dom() == read.dom(),
                forall|j: int|
                    0 <= j < k ==> self@.messages[(#[trigger] ids@[j])@] == state_reported(
                        read[ids@[j]@],
                        "read"@,
                        Some(now),
                    ),
                forall|id: Seq<char>|
                    read.contains_key(id) && !(exists|j: int|
                        0 <= j < k && (#[trigger] ids@[j])@ == id) ==> #[trigger] self@.messages[id]
                        == read[id],
            decreases ids@.len() - k,
        {
            let ghost was = self@.messages;
            proof {
                let id = ids@[k as int]@;
                assert(read.contains_key(id));
                assert(was.dom().contains(id));
                if exists|j: int| 0 <= j < k && (#[trigger] ids@[j])@ == id {
                    let j = choose|j: int| 0 <= j < k && (#[trigger] ids@[j])@ == id;
                    assert(ids@[j]@ != ids@[k as int]@);
                }
                assert(was[id] == read[id]);
            }
            self.set_message_state(&ids[k], "read", Some(now));
            proof {
                assert(self@.messages.dom() =~= read.dom());
                assert forall|j: int| 0 <= j < k + 1 implies self@.messages[(
                #[trigger] ids@[j])@] == state_reported(read[ids@[j]@], "read"@, Some(now)) by {
                    if j < k {
                        assert(ids@[j]@ != ids@[k as int]@);
                    }
                }
                assert forall|id: Seq<char>|
                    read.contains_key(id) && !(exists|j: int|
                        0 <= j < k + 1 && (#[trigger] ids@[j])@ == id) implies #[trigger] self@.messages[id]
                    == read[id] by {
                    assert(ids@[k as int]@ != id);
                    if exists|j: int| 0 <= j < k && (#[trigger] ids@[j])@ == id {
                        let j = choose|j: int| 0 <= j < k && (#[trigger] ids@[j])@ == id;
                        assert(ids@[j]@ == id);
                    }
                    assert(was[id] == read[id]);
                }
            }
            k = k + 1;
        }
        proof {
            let goal = all_read(read, contact@, now);
            assert forall|id: Seq<char>| read.contains_key(id) implies #[trigger] self@.messages[id]
                == goal[id] by {
                if unread(read[id], contact@) {
                    let j = choose|j: int| 0 <= j < ids@.len() && (#[trigger] ids@[j])@ == id;
                    assert(self@.messages[ids@[j]@] == goal[id]);
                } else {
                    if exists|j: int| 0 <= j < ids@.len() && (#[trigger] ids@[j])@ == id {
                        let j = choose|j: int| 0 <= j < ids@.len() && (#[trigger] ids@[j])@ == id;
                        assert(unread(read[ids@[j]@], contact@));
                    }
                }
            }
            assert(self@.messages =~= goal);
        }
        ids
    }

    /// Who a message was exchanged with, and whether we sent it.
    pub fn message_peer(&self, id: &str) -> (peer: Option<(String, bool)>)
        requires
            self.wf(),
        ensures
            match peer {
                Some(peer) => self@.messages.contains_key(id@) && self@.messages[id@].contact
                    == peer.0@ && self@.messages[id@].mine == peer.1,
                None => !self@.messages.contains_key(id@),
            },
    {
        let name = id.to_string();
        match self.messages.get(&name) {
            Some(row) => Some((row.contact.clone(), row.mine)),
            None => None,
        }
    }
}

/// The messages with one under another identifier; nothing where that one is
/// taken.
pub open spec fn reassigned(
    messages: Map<Seq<char>, MessageView>,
    was: Seq<char>,
    new: Seq<char>,
) -> Option<Map<Seq<char>, MessageView>> {
    if !messages.contains_key(was) || was == new {
        Some(messages)
    } else if messages.contains_key(new) {
        None
    } else {
        Some(messages.remove(was).insert(new, MessageView { id: new, ..messages[was] }))
    }
}

/// States only move forward: whatever is reported afterwards, a message that was
/// read stays read, and one that was delivered does not fall back.
pub proof fn states_only_move_forward(m: MessageView, state: Seq<char>, at: Option<i64>)
    ensures
        rank(state_reported(m, state, at).state) >= rank(m.state),
        m.state == "read"@ ==> state_reported(m, state, at) == m,
        m.delivered_at is Some ==> state_reported(m, state, at).delivered_at == m.delivered_at,
        state_reported(m, state, at).text == m.text,
        state_reported(m, state, at).id == m.id,
{
}

/// A message that is reported as read counts as delivered too.
pub proof fn reading_implies_delivery(m: MessageView, at: i64)
    requires
        rank(m.state) < 2,
    ensures
        state_reported(m, "read"@, Some(at)).state == "read"@,
        state_reported(m, "read"@, Some(at)).read_at == Some(at),
        state_reported(m, "read"@, Some(at)).delivered_at is Some,
{
}

/// Adding a message twice is adding it once, and never touches what is there.
pub proof fn adding_twice_is_adding_once(
    messages: Map<Seq<char>, MessageView>,
    m: MessageView,
    again: MessageView,
)
    requires
        m.id == again.id,
    ensures
        message_added(message_added(messages, m), again) == message_added(messages, m),
        forall|id: Seq<char>| #[trigger]
            messages.contains_key(id) ==> message_added(messages, m).contains_key(id)
                && message_added(messages, m)[id] == messages[id],
{
}

} // verus!
