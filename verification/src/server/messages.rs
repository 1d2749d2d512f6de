//! Messages: queued until their recipient acknowledges them.
#[allow(unused_imports)]
use vstd::set::fold::{is_fun_commutative, lemma_fold_empty, lemma_fold_insert};
#[allow(unused_imports)]
use vstd::utf8::encode_utf8;
use vstd::prelude::*;

use crate::random::fresh_id;
#[allow(unused_imports)]
use crate::server::contacts::lemma_fewer_messages;
use crate::server::errors::ApiError;
#[allow(unused_imports)]
use crate::server::limits::{is_clock, judged, passes};
use crate::server::limits::{DAY, MAX_ID_BYTES, MAX_QUEUED_BYTES, MAX_QUEUED_MESSAGES, MINUTE};
#[allow(unused_imports)]
use crate::server::live::{
    connected, notice_to, notices, told, watchers, NoticeView, OutMessageView, PushView,
};
use crate::server::live::{Notice, OutMessage, Push, ReceiptState};
use crate::server::sessions::AuthUser;
use crate::server::store::{Delivery, LinkState, Queued, Relay, Write};
#[allow(unused_imports)]
use crate::server::store::{
    fits_together, link_of, pruned, sound, DeliveryView, QueuedView, Store, World,
};
#[allow(unused_imports)]
use crate::table::{is_listing, keys_where};
use crate::table::{RowTest, Timed};
#[allow(unused_imports)]
use crate::text::lowercased;
use crate::text::{byte_len, join2, lowercase, same_text};

verus! {

impl Timed for Queued {
    open spec fn moment(row: QueuedView) -> i64 {
        row.created_at
    }

    fn time(&self) -> (at: i64) {
        self.created_at
    }
}

/// The messages that wait for an account.
pub open spec fn waiting(messages: Map<Seq<char>, QueuedView>, recipient: Seq<char>) -> Set<
    Seq<char>,
> {
    keys_where(messages, |id: Seq<char>, m: QueuedView| m.recipient == recipient)
}

/// The bytes that some messages hold.
pub open spec fn bytes_held(messages: Map<Seq<char>, QueuedView>, ids: Set<Seq<char>>) -> int {
    ids.fold(0int, |sum: int, id: Seq<char>| sum + encode_utf8(messages[id].body).len())
}

/// Whether a mailbox has no room for one more body.
pub open spec fn mailbox_full(store: Store, recipient: Seq<char>, body: Seq<char>) -> bool {
    let ids = waiting(store.messages, recipient);
    ids.len() >= MAX_QUEUED_MESSAGES || bytes_held(store.messages, ids) + encode_utf8(body).len()
        > MAX_QUEUED_BYTES
}

/// Why a message is refused, if so. Messaging is contacts-only: an accepted link
/// is what a contact request buys you, and it also keeps strangers from filling
/// anyone's mailbox.
pub open spec fn send_refusal(
    w: World,
    me: Seq<char>,
    recipient: Seq<char>,
    body: Seq<char>,
    now: i64,
) -> Option<ApiError> {
    if !passes(w, "send:"@ + me, 120, MINUTE, now) {
        Some(ApiError::RateLimited)
    } else if !w.store.accounts.contains_key(recipient) {
        Some(ApiError::NotFound)
    } else if link_of(w.store, recipient, me) != Some(LinkState::Accepted) {
        Some(ApiError::NotAContact)
    } else if mailbox_full(w.store, recipient, body) {
        Some(ApiError::MailboxFull)
    } else {
        None
    }
}

/// The relay once an attempt to send was counted.
pub open spec fn send_judged(w: World, me: Seq<char>, now: i64) -> World {
    judged(w, "send:"@ + me, 120, MINUTE, now)
}

/// The relay with one more message waiting.
pub open spec fn queued(w: World, id: Seq<char>, message: QueuedView) -> World {
    World { store: Store { messages: w.store.messages.insert(id, message), ..w.store }, ..w }
}

/// Whether a list holds everything that waits for an account, the oldest first.
pub open spec fn is_backlog(
    list: Seq<OutMessage>,
    messages: Map<Seq<char>, QueuedView>,
    me: Seq<char>,
) -> bool {
    &&& forall|i: int|
        0 <= i < list.len() ==> {
            let m = (#[trigger] list[i])@;
            &&& messages.contains_key(m.id)
            &&& messages[m.id].recipient == me
            &&& m.sender == messages[m.id].sender
            &&& m.body == messages[m.id].body
            &&& m.created_at == messages[m.id].created_at
        }
    &&& forall|i: int, j: int|
        0 <= i < j < list.len() ==> (#[trigger] list[i])@.id != (#[trigger] list[j])@.id
            && list[i].created_at <= list[j].created_at
    &&& forall|id: Seq<char>| #[trigger]
        messages.contains_key(id) && messages[id].recipient == me ==> exists|i: int|
            0 <= i < list.len() && (#[trigger] list[i])@.id == id
}

/// Whether a message waits for an account.
pub open spec fn waits_for(store: Store, id: Seq<char>, me: Seq<char>) -> bool {
    store.messages.contains_key(id) && store.messages[id].recipient == me
}

/// The relay without one message.
pub open spec fn without_message(w: World, id: Seq<char>) -> World {
    World { store: Store { messages: w.store.messages.remove(id), ..w.store }, ..w }
}

/// The relay after a message was acknowledged. It remembers who to tell when it
/// is read; receipts that nobody claimed in a month are pruned on the way.
pub open spec fn after_ack(
    w: World,
    me: Seq<char>,
    id: Seq<char>,
    undecryptable: bool,
    now: i64,
) -> World {
    if !waits_for(w.store, id, me) {
        w
    } else if undecryptable {
        without_message(w, id)
    } else {
        let delivery = DeliveryView {
            sender: w.store.messages[id].sender,
            recipient: me,
            created_at: now,
        };
        let gone = without_message(w, id);
        World {
            store: Store {
                deliveries: pruned(
                    w.store.deliveries.insert(id, delivery),
                    (now - 30 * DAY) as i64,
                ),
                ..gone.store
            },
            ..gone
        }
    }
}

/// Who is told of an acknowledgement: the sender, unless the message could not
/// be read. They then still hold it as unsent, which is what lets them send it
/// again once the session is rebuilt.
pub open spec fn ack_notices(
    w: World,
    me: Seq<char>,
    id: Seq<char>,
    undecryptable: bool,
    now: i64,
) -> Seq<NoticeView> {
    if waits_for(w.store, id, me) && !undecryptable {
        notice_to(
            w,
            w.store.messages[id].sender,
            PushView::Receipt { id, state: ReceiptState::Delivered, at: now },
        )
    } else {
        Seq::empty()
    }
}

/// Whether a delivered message can still be reported as read by an account.
pub open spec fn unread_by(store: Store, id: Seq<char>, me: Seq<char>) -> bool {
    store.deliveries.contains_key(id) && store.deliveries[id].recipient == me
}

/// Singles out what waits for an account.
struct WaitsFor<'a> {
    recipient: &'a str,
}

impl<'a> RowTest<String, Queued> for WaitsFor<'a> {
    closed spec fn holds(&self, key: Seq<char>, row: QueuedView) -> bool {
        row.recipient == self.recipient@
    }

    fn test(&self, key: &String, row: &Queued) -> (yes: bool) {
        same_text(&row.recipient, self.recipient)
    }
}

/// A message that was queued, and who is told.
pub struct Sent {
    pub id: String,
    pub notices: Vec<Notice>,
}

/// A stream that was opened: its number, who is told, and what waited.
pub struct Opened {
    pub listener: u64,
    pub notices: Vec<Notice>,
    pub backlog: Vec<OutMessage>,
}

impl Push {
    /// The name of a push on the stream.
    pub fn event(&self) -> (name: &'static str)
        ensures
            name@ == match self@ {
                PushView::Message(_) => "message"@,
                PushView::ContactsChanged => "contacts"@,
                PushView::Receipt { .. } => "receipt"@,
            },
    {
        match self {
            Push::Message(_) => "message",
            Push::ContactsChanged => "contacts",
            Push::Receipt { .. } => "receipt",
        }
    }
}

impl ReceiptState {
    /// How a state is written.
    pub fn text(&self) -> (text: &'static str)
        ensures
            text@ == match *self {
                ReceiptState::Delivered => "delivered"@,
                ReceiptState::Read => "read"@,
            },
    {
        match self {
            ReceiptState::Delivered => "delivered",
            ReceiptState::Read => "read",
        }
    }
}

/// A message more or less keeps the tables in order, as long as it waits for an
/// account.
proof fn lemma_message_put(before: Store, id: Seq<char>, message: QueuedView)
    requires
        sound(before),
        before.accounts.contains_key(message.recipient),
    ensures
        sound(Store { messages: before.messages.insert(id, message), ..before }),
{
    let after = Store { messages: before.messages.insert(id, message), ..before };
    assert forall|o: Seq<char>, p: Seq<char>| fits_together(
        #[trigger] link_of(after, o, p),
        link_of(after, p, o),
    ) by {
        assert(link_of(after, o, p) == link_of(before, o, p));
        assert(fits_together(link_of(before, o, p), link_of(before, p, o)));
    }
}

/// The deliveries do not matter for the order of the tables.
proof fn lemma_deliveries_changed(before: Store, after: Store)
    requires
        sound(before),
        after == (Store { deliveries: after.deliveries, ..before }),
    ensures
        sound(after),
{
    assert forall|o: Seq<char>, p: Seq<char>| fits_together(
        #[trigger] link_of(after, o, p),
        link_of(after, p, o),
    ) by {
        assert(link_of(after, o, p) == link_of(before, o, p));
        assert(fits_together(link_of(before, o, p), link_of(before, p, o)));
    }
}

impl Relay {
    /// Whether a mailbox has no room for one more body. The cap keeps one sender
    /// from filling the disk (or a recipient's memory on reconnect) by flooding
    /// an offline account.
    fn is_mailbox_full(&self, recipient: &str, body: &str) -> (full: bool)
        requires
            self.wf(),
        ensures
            full == mailbox_full(self@.store, recipient@, body@),
    {
        let question = WaitsFor { recipient };
        let places = self.messages.find_where(&question);
        let ghost ids = waiting(self@.store.messages, recipient@);
        let ghost size = |sum: int, id: Seq<char>|
            sum + encode_utf8(self@.store.messages[id].body).len();
        proof {
            assert(ids =~= keys_where(
                self.messages@,
                |k: Seq<char>, r: QueuedView| question.holds(k, r),
            ));
        }
        let mut total: u128 = byte_len(body) as u128;
        let ghost own = total as int;
        let mut i: usize = 0;
        let ghost mut found: Set<Seq<char>> = Set::empty();
        proof {
            lemma_fold_empty(0int, size);
            assert(is_fun_commutative(size));
        }
        while i < places.len()
            invariant
                self.wf(),
                i <= places@.len(),
                size == (|sum: int, id: Seq<char>|
                    sum + encode_utf8(self@.store.messages[id].body).len()),
                is_fun_commutative(size),
                forall|p: int|
                    0 <= p < places@.len() ==> (#[trigger] places@[p]) < self.messages.rows@.len()
                        && self.messages@.contains_key(self.messages.rows@[places@[p] as int].0@)
                        && self.messages@[self.messages.rows@[places@[p] as int].0@]
                        == self.messages.rows@[places@[p] as int].1@,
                forall|p: int, q: int|
                    0 <= p < q < places@.len() ==> self.messages.rows@[(
                    #[trigger] places@[p]) as int].0@ != self.messages.rows@[(
                    #[trigger] places@[q]) as int].0@,
                found.finite(),
                forall|k: Seq<char>| #[trigger]
                    found.contains(k) <==> exists|p: int|
                        0 <= p < i && self.messages.rows@[(#[trigger] places@[p]) as int].0@ == k,
                total == own + found.fold(0int, size),
                0 <= own <= usize::MAX,
                total <= (i + 1) * 0xffff_ffff_ffff_ffff,
            decreases places@.len() - i,
        {
            let at: usize = places[i];
            let ghost key = self.messages.rows@[at as int].0@;
            let held: usize = byte_len(&self.messages.rows[at].1.body);
            proof {
                if found.contains(key) {
                    let p = choose|p: int|
                        0 <= p < i && self.messages.rows@[(#[trigger] places@[p]) as int].0@ == key;
                    assert(self.messages.rows@[places@[p] as int].0@
                        != self.messages.rows@[places@[i as int] as int].0@);
                }
                lemma_fold_insert(found, 0int, size, key);
            }
            let ghost was = found;
            proof {
                found = found.insert(key);
            }
            total = total + held as u128;
            i = i + 1;
            proof {
                assert forall|k: Seq<char>| #[trigger] found.contains(k) <==> exists|p: int|
                    0 <= p < i && self.messages.rows@[(#[trigger] places@[p]) as int].0@ == k by {
                    if was.contains(k) {
                        let p = choose|p: int|
                            0 <= p < i - 1 && self.messages.rows@[(
                            #[trigger] places@[p]) as int].0@ == k;
                        assert(self.messages.rows@[places@[p] as int].0@ == k);
                    }
                    if k == key {
                        assert(self.messages.rows@[places@[i - 1] as int].0@ == k);
                    }
                }
            }
        }
        proof {
            assert forall|k: Seq<char>| found.contains(k) == ids.contains(k) by {
                if ids.contains(k) {
                    assert(question.holds(k, self.messages@[k]));
                    let p = choose|p: int|
                        0 <= p < places@.len() && self.messages.rows@[(
                        #[trigger] places@[p]) as int].0@ == k;
                    assert(self.messages.rows@[places@[p] as int].0@ == k);
                }
                if found.contains(k) {
                    let p = choose|p: int|
                        0 <= p < i && self.messages.rows@[(#[trigger] places@[p]) as int].0@ == k;
                    assert(question.holds(k, self.messages@[k]));
                }
            }
            assert(found =~= ids);
            assert(bytes_held(self@.store.messages, ids) == ids.fold(0int, size));
        }
        places.len() >= MAX_QUEUED_MESSAGES || total > MAX_QUEUED_BYTES
    }

    /// Judges an attempt to send.
    pub fn check_send(&mut self, me: &AuthUser, recipient: &str, body: &str, now: i64) -> (refusal:
        Option<ApiError>)
        requires
            old(self).wf(),
        ensures
            final(self).wf(),
            refusal == send_refusal(
                old(self)@,
                me.username@,
                lowercased(recipient@),
                body@,
                now,
            ),
            final(self)@ == send_judged(old(self)@, me.username@, now),
    {
        let name = lowercase(recipient);
        let key = join2("send:", &me.username);
        if !self.pass(&key, 120, MINUTE, now) {
            return Some(ApiError::RateLimited);
        }
        if !self.accounts.has(&name) {
            return Some(ApiError::NotFound);
        }
        let accepted = match self.link_state(&name, &me.username) {
            Some(LinkState::Accepted) => true,
            _ => false,
        };
        if !accepted {
            return Some(ApiError::NotAContact);
        }
        if self.is_mailbox_full(&name, body) {
            return Some(ApiError::MailboxFull);
        }
        None
    }

    /// Queues a message under an identifier.
    pub fn queue_message(
        &mut self,
        me: &AuthUser,
        recipient: &str,
        body: &str,
        id: String,
        now: i64,
    ) -> (reply: Result<Sent, ApiError>)
        requires
            old(self).wf(),
            old(self)@.store.accounts.contains_key(recipient@),
        ensures
            final(self).wf(),
            old(self)@.store.messages.contains_key(id@) ==> reply == Err::<Sent, ApiError>(
                ApiError::Internal,
            ) && final(self)@ == old(self)@,
            !old(self)@.store.messages.contains_key(id@) ==> {
                let message = QueuedView {
                    sender: me.username@,
                    recipient: recipient@,
                    body: body@,
                    created_at: now,
                };
                &&& reply is Ok
                &&& reply->Ok_0.id@ == id@
                &&& final(self)@ == queued(old(self)@, id@, message)
                &&& notices(reply->Ok_0.notices@) == notice_to(
                    old(self)@,
                    recipient@,
                    PushView::Message(
                        OutMessageView {
                            id: id@,
                            sender: me.username@,
                            body: body@,
                            created_at: now,
                        },
                    ),
                )
            },
    {
        if self.messages.has(&id) {
            return Err(ApiError::Internal);
        }
        let row = Queued {
            sender: me.username.clone(),
            recipient: recipient.to_string(),
            body: body.to_string(),
            created_at: now,
        };
        proof {
            lemma_message_put(self@.store, id@, row@);
        }
        self.write(Write::PutMessage { id: id.clone(), row });
        // Best-effort live push; the backlog covers anyone offline.
        let push = Push::Message(
            OutMessage {
                id: id.clone(),
                sender: me.username.clone(),
                body: body.to_string(),
                created_at: now,
            },
        );
        let notices = self.notify(recipient, push);
        Ok(Sent { id, notices })
    }

    /// Queues a message for a contact.
    pub fn send_message(&mut self, me: &AuthUser, recipient: &str, body: &str, now: i64) -> (reply:
        Result<Sent, ApiError>)
        requires
            old(self).wf(),
        ensures
            final(self).wf(),
            send_refusal(
                old(self)@,
                me.username@,
                lowercased(recipient@),
                body@,
                now,
            ) matches Some(e) ==> reply == Err::<Sent, ApiError>(e) && final(self)@ == send_judged(
                old(self)@,
                me.username@,
                now,
            ),
            send_refusal(
                old(self)@,
                me.username@,
                lowercased(recipient@),
                body@,
                now,
            ) is None ==> exists|id: Seq<char>| #[trigger]
                sent(
                    send_judged(old(self)@, me.username@, now),
                    final(self)@,
                    me.username@,
                    lowercased(recipient@),
                    body@,
                    id,
                    now,
                    reply,
                ),
    {
        if let Some(refusal) = self.check_send(me, recipient, body, now) {
            return Err(refusal);
        }
        let ghost w = self@;
        let name = lowercase(recipient);
        let id = fresh_id();
        let ghost drawn = id@;
        let reply = self.queue_message(me, &name, body, id, now);
        assert(sent(w, self@, me.username@, name@, body@, drawn, now, reply));
        reply
    }

    /// Opens a stream: the account is connected from now on, and gets what
    /// waited for it.
    pub fn message_stream(&mut self, me: &AuthUser, now: i64) -> (reply: Result<Opened, ApiError>)
        requires
            old(self).wf(),
        ensures
            final(self).wf(),
            !passes(old(self)@, "stream:"@ + me.username@, 30, MINUTE, now) ==> reply == Err::<
                Opened,
                ApiError,
            >(ApiError::RateLimited) && final(self)@ == judged(
                old(self)@,
                "stream:"@ + me.username@,
                30,
                MINUTE,
                now,
            ),
            passes(old(self)@, "stream:"@ + me.username@, 30, MINUTE, now) ==> {
                &&& reply is Ok
                &&& final(self)@ == connected(
                    judged(old(self)@, "stream:"@ + me.username@, 30, MINUTE, now),
                    me.username@,
                    now,
                )
                &&& reply->Ok_0.listener == old(self)@.next_listener
                &&& told(
                    notices(reply->Ok_0.notices@),
                    watchers(final(self)@, me.username@),
                    final(self)@.live,
                    PushView::ContactsChanged,
                )
                &&& is_backlog(
                    reply->Ok_0.backlog@,
                    old(self)@.store.messages,
                    me.username@,
                )
            },
    {
        // Opening streams is cheap per request but expensive in aggregate; a
        // client stuck in a reconnect loop must not be able to spin here.
        let key = join2("stream:", &me.username);
        if !self.pass(&key, 30, MINUTE, now) {
            return Err(ApiError::RateLimited);
        }
        let listener: u64 = self.next_listener;
        self.next_listener = if listener == u64::MAX {
            0
        } else {
            listener + 1
        };
        self.live.put(me.username.clone(), listener);
        // Coming online is a presence change for everyone watching.
        self.touch_last_seen(&me.username, now);
        let notices = self.notify_watchers(&me.username);
        let backlog = self.backlog(&me.username);
        Ok(Opened { listener, notices, backlog })
    }

    /// Everything that waits for an account, the oldest first.
    fn backlog(&self, me: &str) -> (list: Vec<OutMessage>)
        requires
            self.wf(),
        ensures
            is_backlog(list@, self@.store.messages, me@),
    {
        let question = WaitsFor { recipient: me };
        let places = self.messages.list_where(&question);
        let ghost rows = self.messages.at_places(places@);
        let mut list: Vec<OutMessage> = Vec::new();
        let mut i: usize = 0;
        while i < places.len()
            invariant
                self.wf(),
                i <= places@.len(),
                question.recipient@ == me@,
                rows == self.messages.at_places(places@),
                forall|j: int|
                    0 <= j < places@.len() ==> (#[trigger] places@[j]) < self.messages.rows@.len(),
                is_listing(
                    rows,
                    self.messages@,
                    |k: Seq<char>, r: QueuedView| question.holds(k, r),
                    |r: QueuedView| Queued::moment(r),
                ),
                list@.len() == i,
                forall|j: int|
                    0 <= j < i ==> {
                        let m = (#[trigger] list@[j])@;
                        &&& m.id == rows[j].0
                        &&& m.sender == rows[j].1.sender
                        &&& m.body == rows[j].1.body
                        &&& m.created_at == rows[j].1.created_at
                    },
            decreases places@.len() - i,
        {
            let at: usize = places[i];
            let row = &self.messages.rows[at];
            assert(rows[i as int] == (row.0@, row.1@));
            list.push(
                OutMessage {
                    id: row.0.clone(),
                    sender: row.1.sender.clone(),
                    body: row.1.body.clone(),
                    created_at: row.1.created_at,
                },
            );
            i = i + 1;
        }
        proof {
            let messages = self@.store.messages;
            assert forall|i: int| 0 <= i < list@.len() implies {
                let m = (#[trigger] list@[i])@;
                &&& messages.contains_key(m.id)
                &&& messages[m.id].recipient == me@
                &&& messages[m.id] == rows[i].1
            } by {
                assert(self.messages@.contains_key(rows[i].0));
                assert(question.holds(rows[i].0, rows[i].1));
            }
            assert forall|i: int, j: int| 0 <= i < j < list@.len() implies (
            #[trigger] list@[i])@.id != (#[trigger] list@[j])@.id && list@[i].created_at
                <= list@[j].created_at by {
                assert(list@[i]@.created_at == rows[i].1.created_at);
                assert(list@[j]@.created_at == rows[j].1.created_at);
                assert(rows[i].0 != rows[j].0);
                assert(Queued::moment(rows[i].1) <= Queued::moment(rows[j].1));
            }
            assert forall|id: Seq<char>| #[trigger]
                messages.contains_key(id) && messages[id].recipient == me@ implies exists|i: int|
                0 <= i < list@.len() && (#[trigger] list@[i])@.id == id by {
                assert(question.holds(id, self.messages@[id]));
                let i = choose|i: int| 0 <= i < rows.len() && (#[trigger] rows[i]).0 == id;
                assert(list@[i]@.id == id);
            }
        }
        list
    }

    /// Takes a message off the queue of its recipient.
    pub fn ack_message(&mut self, me: &AuthUser, id: &str, undecryptable: bool, now: i64) -> (reply:
        Result<Vec<Notice>, ApiError>)
        requires
            old(self).wf(),
            is_clock(now),
        ensures
            final(self).wf(),
            encode_utf8(id@).len() > MAX_ID_BYTES ==> reply == Err::<Vec<Notice>, ApiError>(
                ApiError::InvalidId,
            ) && final(self)@ == old(self)@,
            encode_utf8(id@).len() <= MAX_ID_BYTES ==> {
                &&& reply is Ok
                &&& final(self)@ == after_ack(old(self)@, me.username@, id@, undecryptable, now)
                &&& notices(reply->Ok_0@) == ack_notices(
                    old(self)@,
                    me.username@,
                    id@,
                    undecryptable,
                    now,
                )
            },
    {
        if byte_len(id) > MAX_ID_BYTES {
            return Err(ApiError::InvalidId);
        }
        let ghost before = self@;
        let name = id.to_string();
        let sender = match self.messages.get(&name) {
            Some(message) => if same_text(&message.recipient, &me.username) {
                Some(message.sender.clone())
            } else {
                None
            },
            None => None,
        };
        let nobody: Vec<Notice> = Vec::new();
        assert(notices(nobody@) =~= Seq::<NoticeView>::empty());
        match sender {
            None => Ok(nobody),
            Some(sender) => {
                self.write(Write::DropMessage { id: id.to_string() });
                proof {
                    lemma_fewer_messages(before.store, self@.store);
                }
                if undecryptable {
                    return Ok(nobody);
                }
                let ghost gone = self@;
                // Remember who sent it, so a later read receipt still knows
                // where to go.
                self.write(
                    Write::PutDelivery {
                        id: id.to_string(),
                        row: Delivery {
                            sender: sender.clone(),
                            recipient: me.username.clone(),
                            created_at: now,
                        },
                    },
                );
                self.write(Write::PruneDeliveries { before: now - 30 * DAY });
                proof {
                    lemma_deliveries_changed(gone.store, self@.store);
                }
                Ok(
                    self.notify(
                        &sender,
                        Push::Receipt {
                            id: id.to_string(),
                            state: ReceiptState::Delivered,
                            at: now,
                        },
                    ),
                )
            },
        }
    }

    /// Reports that the caller has read a message, telling its sender. For a
    /// message that is unknown or already reported there is nothing to do, and
    /// nothing to leak.
    pub fn mark_read(&mut self, me: &AuthUser, id: &str, now: i64) -> (reply: Result<
        Vec<Notice>,
        ApiError,
    >)
        requires
            old(self).wf(),
        ensures
            final(self).wf(),
            encode_utf8(id@).len() > MAX_ID_BYTES ==> reply == Err::<Vec<Notice>, ApiError>(
                ApiError::InvalidId,
            ) && final(self)@ == old(self)@,
            encode_utf8(id@).len() <= MAX_ID_BYTES ==> reply is Ok,
            encode_utf8(id@).len() <= MAX_ID_BYTES && !unread_by(
                old(self)@.store,
                id@,
                me.username@,
            ) ==> reply->Ok_0@.len() == 0 && final(self)@ == old(self)@,
            encode_utf8(id@).len() <= MAX_ID_BYTES && unread_by(
                old(self)@.store,
                id@,
                me.username@,
            ) ==> {
                let store = old(self)@.store;
                &&& notices(reply->Ok_0@) == notice_to(
                    old(self)@,
                    store.deliveries[id@].sender,
                    PushView::Receipt { id: id@, state: ReceiptState::Read, at: now },
                )
                &&& final(self)@ == (World {
                    store: Store { deliveries: store.deliveries.remove(id@), ..store },
                    ..old(self)@
                })
            },
    {
        if byte_len(id) > MAX_ID_BYTES {
            return Err(ApiError::InvalidId);
        }
        let ghost before = self@;
        let name = id.to_string();
        let sender = match self.deliveries.get(&name) {
            Some(delivery) => if same_text(&delivery.recipient, &me.username) {
                Some(delivery.sender.clone())
            } else {
                None
            },
            None => None,
        };
        match sender {
            None => Ok(Vec::new()),
            Some(sender) => {
                self.write(Write::DropDelivery { id: name });
                proof {
                    lemma_deliveries_changed(before.store, self@.store);
                }
                Ok(
                    self.notify(
                        &sender,
                        Push::Receipt { id: id.to_string(), state: ReceiptState::Read, at: now },
                    ),
                )
            },
        }
    }
}

/// What an admitted message comes to, given the identifier that was drawn.
pub open spec fn sent(
    before: World,
    after: World,
    me: Seq<char>,
    recipient: Seq<char>,
    body: Seq<char>,
    id: Seq<char>,
    now: i64,
    reply: Result<Sent, ApiError>,
) -> bool {
    let message = QueuedView { sender: me, recipient, body, created_at: now };
    &&& encode_utf8(id).len() == 36
    &&& if before.store.messages.contains_key(id) {
        reply == Err::<Sent, ApiError>(ApiError::Internal) && after == before
    } else {
        &&& reply is Ok
        &&& reply->Ok_0.id@ == id
        &&& after == queued(before, id, message)
        &&& notices(reply->Ok_0.notices@) == notice_to(
            before,
            recipient,
            PushView::Message(OutMessageView { id, sender: me, body, created_at: now }),
        )
    }
}

} // verus!
