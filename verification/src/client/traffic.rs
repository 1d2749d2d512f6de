//! Sending and receiving.
#[allow(unused_imports)]
use vstd::utf8::encode_utf8;
use vstd::prelude::*;

use crate::api::IncomingMessage;
#[allow(unused_imports)]
use crate::api::IncomingView;
#[allow(unused_imports)]
use crate::client::{control, event_seen, picture, ActorView, ClientEventView};
use crate::client::{
    is_control, is_picture, Actor, ClientEvent, ClientFault, DecryptedMessage, KEY_CHANGED,
    REPAIR_INTERVAL_MS, THE_DEVICE,
};
#[allow(unused_imports)]
use crate::codec::b64_encoded;
#[allow(unused_imports)]
use crate::db::contacts::with_contact;
#[allow(unused_imports)]
use crate::db::messages::{
    is_message_list, message_added, reassigned, state_reported, undelivered, with_messages,
};
#[allow(unused_imports)]
use crate::db::records::{identity_forgotten, pinned, session_reset};
#[allow(unused_imports)]
use crate::db::{can_seal, DbView, MessageView};
use crate::db::StoredMessage;
#[allow(unused_imports)]
use crate::engine::{conflicts, content_in, content_json, hex_pairs, sha256_digest};
use crate::engine::{decode_content, encode_content, fingerprint, identity_conflict};
use crate::keystore::StorageError;
#[allow(unused_imports)]
use crate::text::{signed_decimal, text_in};
use crate::text::{join2, join3, same_text, write_signed};

verus! {

/// What stands between a message and its recipient.
pub enum SendStep {
    /// The contact is publishing a key we never agreed to: held back until the
    /// user says whether it is really them.
    Refused { event: Option<ClientEvent> },
    /// What we have on record cannot be read.
    Unreadable(StorageError),
    /// There is no ratchet with them yet.
    NeedsSession,
    /// It can be encrypted.
    Ready,
}

/// What became of an incoming message.
pub struct Received {
    /// What the interface is told.
    pub event: Option<ClientEvent>,
    /// Who rebuilt the session with us, and is to be sent again what they never
    /// acknowledged.
    pub resend_to: Option<String>,
    /// What was added to the conversation, unless it was there.
    pub stored: Option<StoredMessage>,
    /// Whether the sender is missing from the cached contacts.
    pub unknown_sender: bool,
}

/// What to do about a message that could not be read.
pub enum UnreadableStep {
    /// Somebody else may hold the other end: put to the user.
    Disputed { event: Option<ClientEvent> },
    /// The ratchet was dropped, and is to be rebuilt.
    Rebuild,
    /// It was rebuilt a moment ago.
    Wait,
}

/// The fingerprint of an identity.
pub open spec fn print_of(identity: Seq<char>) -> Seq<char> {
    hex_pairs(sha256_digest(encode_utf8(identity)), 10)
}

/// The identifier of a note that a key changed.
pub open spec fn notice_id(contact: Seq<char>, at: i64) -> Seq<char> {
    "keychange-"@ + contact + ("-"@ + signed_decimal(at as int))
}

/// The note that a contact's key changed.
pub open spec fn key_notice(contact: Seq<char>, published: Seq<char>, at: i64) -> MessageView {
    MessageView {
        id: notice_id(contact, at),
        contact,
        mine: false,
        kind: KEY_CHANGED@,
        text: print_of(published),
        state: "delivered"@,
        delivered_at: Some(at),
        read_at: None,
        created_at: at,
    }
}

/// The messages once one was added, where it can be sealed.
pub open spec fn added_if_it_fits(
    secret: Option<Seq<u8>>,
    messages: Map<Seq<char>, MessageView>,
    m: MessageView,
) -> Map<Seq<char>, MessageView> {
    if can_seal(secret, encode_utf8(m.text).len()) {
        message_added(messages, m)
    } else {
        messages
    }
}

/// Whether a contact's offered key was put to the user already.
pub open spec fn asked_already(a: ActorView, contact: Seq<char>, published: Seq<char>) -> bool {
    a.disputed.contains_key(contact) && a.disputed[contact] == published
}

/// The client once a contact's key is in dispute. It goes into the conversation
/// too, and stays there: the dialog can be dismissed and forgotten.
pub open spec fn in_dispute(a: ActorView, contact: Seq<char>, published: Seq<char>, now: i64) -> ActorView {
    let noted = ActorView { disputed: a.disputed.insert(contact, published), ..a };
    if asked_already(a, contact, published) {
        noted
    } else {
        ActorView {
            db: with_messages(
                a.db,
                added_if_it_fits(a.secret, a.db.messages, key_notice(contact, published, now)),
            ),
            ..noted
        }
    }
}

/// What the interface is told of a dispute. Asking again per message would bury
/// the question under its own repetitions.
pub open spec fn dispute_event(
    a: ActorView,
    contact: Seq<char>,
    known: Seq<char>,
    published: Seq<char>,
    now: i64,
) -> Option<ClientEventView> {
    if asked_already(a, contact, published) || !a.connected {
        None
    } else {
        Some(
            ClientEventView::IdentityChanged {
                id: notice_id(contact, now),
                contact,
                known: print_of(known),
                published: print_of(published),
                at: now,
            },
        )
    }
}

/// Whether the session with a peer may be rebuilt: a burst of unreadable messages
/// is one broken session, not one per message.
pub open spec fn may_repair(a: ActorView, peer: Seq<char>, now: i64) -> bool {
    !a.repairs.contains_key(peer) || now - a.repairs[peer] >= REPAIR_INTERVAL_MS
}

/// The client once it set out to rebuild the session with a peer. Only the ratchet
/// is dropped: the contact's pinned identity survives.
pub open spec fn repairing(a: ActorView, peer: Seq<char>, now: i64) -> ActorView {
    let noted = ActorView { repairs: a.repairs.insert(peer, now), ..a };
    if a.session {
        ActorView { db: session_reset(a.db, peer, THE_DEVICE), ..noted }
    } else {
        noted
    }
}

/// The identity that is pinned for a contact, in base64, where it can be read.
pub open spec fn known_identity(db: DbView, contact: Seq<char>) -> Option<Seq<char>> {
    match pinned(db, contact, THE_DEVICE) {
        Some(Some(bytes)) => Some(b64_encoded(bytes)),
        _ => None,
    }
}

/// The message that a sent one is stored as. It reached the server; the
/// recipient's device confirms later.
pub open spec fn sent_message(
    id: Seq<char>,
    recipient: Seq<char>,
    kind: Seq<char>,
    content: Seq<char>,
    now: i64,
) -> MessageView {
    MessageView {
        id,
        contact: recipient,
        mine: true,
        kind,
        text: content,
        state: "sent"@,
        delivered_at: None,
        read_at: None,
        created_at: now,
    }
}

/// The message that an incoming one is stored as. It becomes read when the user
/// opens the conversation; until then this tracks what we owe.
pub open spec fn received_message(
    m: IncomingView,
    kind: Seq<char>,
    text: Seq<char>,
    now: i64,
) -> MessageView {
    MessageView {
        id: m.id,
        contact: m.sender,
        mine: false,
        kind,
        text,
        state: "delivered"@,
        delivered_at: Some(now),
        read_at: None,
        created_at: m.created_at,
    }
}

/// The pictures once a contact sent one: an empty one clears it, and anything but
/// an inline image is ignored.
pub open spec fn avatar_received(a: ActorView, sender: Seq<char>, avatar: Seq<char>) -> Map<
    Seq<char>,
    Seq<char>,
> {
    if avatar.len() == 0 {
        a.db.avatars.remove(sender)
    } else if picture(avatar) && can_seal(a.secret, encode_utf8(avatar).len()) {
        a.db.avatars.insert(sender, avatar)
    } else {
        a.db.avatars
    }
}

/// The client once a message was read.
pub open spec fn after_receiving(a: ActorView, m: IncomingView, plain: Seq<u8>, now: i64) -> ActorView {
    let (kind, text) = content_in(plain);
    if kind == "rekey"@ {
        a
    } else if kind == "avatar"@ {
        ActorView { db: DbView { avatars: avatar_received(a, m.sender, text), ..a.db }, ..a }
    } else if kind == "delete"@ {
        ActorView { db: with_messages(a.db, a.db.messages.remove(text)), ..a }
    } else {
        ActorView {
            db: with_messages(
                a.db,
                added_if_it_fits(
                    a.secret,
                    a.db.messages,
                    received_message(m, kind, text, now),
                ),
            ),
            ..a
        }
    }
}

/// What the interface is told of a message.
pub open spec fn received_event(a: ActorView, m: IncomingView, plain: Seq<u8>) -> Option<
    ClientEventView,
> {
    let (kind, text) = content_in(plain);
    if !a.connected || kind == "rekey"@ {
        None
    } else if kind == "avatar"@ {
        if text.len() == 0 || picture(text) {
            Some(ClientEventView::ContactsChanged)
        } else {
            None
        }
    } else if kind == "delete"@ {
        Some(ClientEventView::MessageDeleted { id: text })
    } else {
        Some(
            ClientEventView::Message {
                id: m.id,
                sender: m.sender,
                kind,
                text,
                created_at: m.created_at,
            },
        )
    }
}

/// Why nothing can be sent to a recipient, if so.
pub open spec fn send_refused(a: ActorView, recipient: Seq<char>) -> Option<ClientFault> {
    if !a.session {
        Some(ClientFault::LogInFirst)
    } else if a.disputed.contains_key(recipient) {
        Some(ClientFault::IdentityChanged)
    } else {
        None
    }
}

impl Actor {
    /// Packs a message, unless there is no session, or the contact's key is in
    /// dispute: sending would mean encrypting to whoever holds the new one.
    pub fn begin_send(&self, recipient: &str, kind: &str, content: &str) -> (payload: Result<
        Vec<u8>,
        ClientFault,
    >)
        requires
            self.wf(),
        ensures
            match send_refused(self@, recipient@) {
                Some(fault) => payload == Err::<Vec<u8>, ClientFault>(fault),
                None => payload is Ok && payload->Ok_0@ == encode_utf8(
                    content_json(kind@, content@),
                ) && content_in(payload->Ok_0@) == (kind@, content@),
            },
    {
        if !self.session {
            return Err(ClientFault::LogInFirst);
        }
        let name = recipient.to_string();
        if self.disputed.has(&name) {
            return Err(ClientFault::IdentityChanged);
        }
        Ok(encode_content(kind, content))
    }

    /// Looks at the identity that the recipient publishes before anything is
    /// encrypted for it. A bundle whose identity key is not the one we pinned stops
    /// here: only the person using the app can tell whether it is really them.
    pub fn check_bundle(&mut self, recipient: &str, published: &Option<String>, now: i64) -> (step:
        SendStep)
        requires
            old(self).wf(),
        ensures
            final(self).wf(),
            ({
                let known = known_identity(old(self)@.db, recipient@);
                let pin = pinned(old(self)@.db, recipient@, THE_DEVICE);
                let address = crate::db::records::address_of(recipient@, 1);
                if pin == Some(None::<Seq<u8>>) {
                    step is Unreadable && final(self)@ == old(self)@
                } else if conflicts(known, text_in(*published)) {
                    &&& step is Refused
                    &&& event_seen(step->event) == dispute_event(
                        old(self)@,
                        recipient@,
                        known->0,
                        published->0@,
                        now,
                    )
                    &&& final(self)@ == in_dispute(old(self)@, recipient@, published->0@, now)
                } else {
                    &&& final(self)@ == old(self)@
                    &&& step is NeedsSession == !old(self)@.db.sessions.contains_key(address)
                    &&& step is Ready == old(self)@.db.sessions.contains_key(address)
                }
            }),
    {
        let known = match self.db.known_identity_b64(recipient, THE_DEVICE) {
            Ok(known) => known,
            Err(e) => {
                return SendStep::Unreadable(e);
            },
        };
        if identity_conflict(&known, published) {
            match (&known, published) {
                (Some(known), Some(published)) => {
                    let event = self.dispute(recipient, known, published, now);
                    return SendStep::Refused { event };
                },
                _ => {
                    assert(false);
                },
            }
        }
        if self.db.has_session(recipient, THE_DEVICE) {
            SendStep::Ready
        } else {
            SendStep::NeedsSession
        }
    }

    /// Records that a contact's key changed and puts it to the user.
    pub fn dispute(&mut self, contact: &str, known: &str, published: &str, now: i64) -> (event:
        Option<ClientEvent>)
        requires
            old(self).wf(),
        ensures
            final(self).wf(),
            final(self)@ == in_dispute(old(self)@, contact@, published@, now),
            event_seen(event) == dispute_event(old(self)@, contact@, known@, published@, now),
    {
        let name = contact.to_string();
        let asked = match self.disputed.get(&name) {
            Some(offered) => same_text(offered, published),
            None => false,
        };
        self.disputed.put(name, published.to_string());
        if asked {
            return None;
        }
        let print = fingerprint(published);
        let tail = join2("-", &write_signed(now));
        let id = join3("keychange-", contact, &tail);
        let notice = StoredMessage {
            id: id.clone(),
            contact: contact.to_string(),
            mine: false,
            kind: KEY_CHANGED.to_string(),
            text: print.clone(),
            state: "delivered".to_string(),
            delivered_at: Some(now),
            read_at: None,
            created_at: now,
        };
        proof {
            assert(notice.id@ =~= notice_id(contact@, now));
        }
        let _ = self.db.add_message(&notice);
        if !self.connected {
            return None;
        }
        Some(
            ClientEvent::IdentityChanged {
                id,
                contact: contact.to_string(),
                known: fingerprint(known),
                published: print,
                at: now,
            },
        )
    }

    /// The server took an envelope for a recipient: they are in the cache from
    /// here on.
    pub fn envelope_sent(&mut self, recipient: &str, alias: &str) -> (done: Result<
        (),
        ClientFault,
    >)
        requires
            old(self).wf(),
        ensures
            final(self).wf(),
            done is Ok == can_seal(old(self)@.secret, encode_utf8(alias@).len()),
            done is Ok ==> final(self)@ == (ActorView {
                db: with_contact(old(self)@.db, recipient@, alias@, "accepted"@),
                ..old(self)@
            }),
            done matches Err(e) ==> e == ClientFault::Storage(StorageError::TooLong) && final(self)@ == old(self)@,
    {
        match self.db.upsert_contact(recipient, alias, "accepted") {
            Ok(_) => Ok(()),
            Err(e) => Err(ClientFault::Storage(e)),
        }
    }

    /// Stores a message that the server took. A control message would otherwise
    /// show up in our own conversation as a line containing the identifier of the
    /// message it refers to.
    pub fn message_sent(
        &mut self,
        id: &str,
        recipient: &str,
        kind: &str,
        content: &str,
        now: i64,
    ) -> (stored: Result<StoredMessage, ClientFault>)
        requires
            old(self).wf(),
        ensures
            final(self).wf(),
            ({
                let m = sent_message(id@, recipient@, kind@, content@, now);
                let fits = can_seal(old(self)@.secret, encode_utf8(content@).len());
                if control(kind@) {
                    stored is Ok && stored->Ok_0@ == m && final(self)@ == old(self)@
                } else if fits {
                    stored is Ok && stored->Ok_0@ == m && final(self)@ == (ActorView {
                        db: with_messages(
                            old(self)@.db,
                            message_added(old(self)@.db.messages, m),
                        ),
                        ..old(self)@
                    })
                } else {
                    stored is Err && stored->Err_0 == ClientFault::Storage(StorageError::TooLong)
                        && final(self)@ == old(self)@
                }
            }),
    {
        let stored = StoredMessage {
            id: id.to_string(),
            contact: recipient.to_string(),
            mine: true,
            kind: kind.to_string(),
            text: content.to_string(),
            state: "sent".to_string(),
            delivered_at: None,
            read_at: None,
            created_at: now,
        };
        if !is_control(kind) {
            match self.db.add_message(&stored) {
                Ok(_) => {},
                Err(e) => {
                    return Err(ClientFault::Storage(e));
                },
            }
        }
        Ok(stored)
    }

    /// Whether anything of a sender is read: not while their key is in dispute.
    pub fn may_read(&self, sender: &str) -> (yes: bool)
        requires
            self.wf(),
        ensures
            yes == (self@.session && !self@.disputed.contains_key(sender@)),
    {
        let name = sender.to_string();
        self.session && !self.disputed.has(&name)
    }

    /// Takes in a message that was decrypted.
    pub fn receive(&mut self, msg: &IncomingMessage, plain: &Vec<u8>, now: i64) -> (received: Received)
        requires
            old(self).wf(),
        ensures
            final(self).wf(),
            final(self)@ == after_receiving(old(self)@, msg@, plain@, now),
            event_seen(received.event) == received_event(old(self)@, msg@, plain@),
            text_in(received.resend_to) == (if content_in(plain@).0 == "rekey"@ {
                Some(msg.sender@)
            } else {
                None
            }),
            received.stored is Some == !control(content_in(plain@).0),
            received.stored matches Some(m) ==> m@ == received_message(
                msg@,
                content_in(plain@).0,
                content_in(plain@).1,
                now,
            ),
            received.unknown_sender == (!control(content_in(plain@).0)
                && !old(self)@.db.contacts.contains_key(msg.sender@)),
    {
        let (kind, text) = decode_content(plain);
        let nothing = Received {
            event: None,
            resend_to: None,
            stored: None,
            unknown_sender: false,
        };
        // Decrypting it already adopted the sender's new session, so what we send
        // next is readable on their side, with whatever they never managed to
        // receive.
        if same_text(&kind, "rekey") {
            return Received {
                event: None,
                resend_to: Some(msg.sender.clone()),
                stored: None,
                unknown_sender: false,
            };
        }
        proof {
            reveal_strlit("rekey");
            reveal_strlit("avatar");
            reveal_strlit("delete");
            assert("rekey"@.len() == 5 && "avatar"@.len() == 6 && "delete"@.len() == 6);
            assert("avatar"@[0] == 'a' && "delete"@[0] == 'd');
        }
        if same_text(&kind, "avatar") {
            if text.as_str().is_empty() {
                let _ = self.db.set_contact_avatar(&msg.sender, None);
            } else if is_picture(&text) {
                let _ = self.db.set_contact_avatar(&msg.sender, Some(text.as_str()));
            } else {
                return nothing;
            }
            let event = if self.connected {
                Some(ClientEvent::ContactsChanged)
            } else {
                None
            };
            return Received { event, resend_to: None, stored: None, unknown_sender: false };
        }
        // A control message, not something to show: the sender deleted a message
        // and wants our copy gone too.
        if same_text(&kind, "delete") {
            self.db.delete_message(&text);
            let event = if self.connected {
                Some(ClientEvent::MessageDeleted { id: text })
            } else {
                None
            };
            return Received { event, resend_to: None, stored: None, unknown_sender: false };
        }
        let known = self.db.contacts.has(&msg.sender);
        let stored = StoredMessage {
            id: msg.id.clone(),
            contact: msg.sender.clone(),
            mine: false,
            kind: kind.clone(),
            text: text.clone(),
            state: "delivered".to_string(),
            delivered_at: Some(now),
            read_at: None,
            created_at: msg.created_at,
        };
        let _ = self.db.add_message(&stored);
        let event = if self.connected {
            Some(
                ClientEvent::Message(
                    DecryptedMessage {
                        id: msg.id.clone(),
                        sender: msg.sender.clone(),
                        kind,
                        text,
                        created_at: msg.created_at,
                    },
                ),
            )
        } else {
            None
        };
        Received { event, resend_to: None, stored: Some(stored), unknown_sender: !known }
    }

    /// Fills in a sender that was missing from the cache: only accepted contacts
    /// can reach us, so the cache is simply behind.
    pub fn learn_contact(&mut self, sender: &str, alias: &str)
        requires
            old(self).wf(),
        ensures
            final(self).wf(),
            final(self)@ == (if can_seal(old(self)@.secret, encode_utf8(alias@).len()) {
                ActorView {
                    db: with_contact(old(self)@.db, sender@, alias@, "accepted"@),
                    ..old(self)@
                }
            } else {
                old(self)@
            }),
    {
        let _ = self.db.upsert_contact(sender, alias, "accepted");
    }

    /// Sets out to rebuild the session with a peer, unless that was done a moment
    /// ago. Sending anything back carries a fresh handshake, which replaces the
    /// session on their side too.
    pub fn begin_repair(&mut self, peer: &str, now: i64) -> (go: bool)
        requires
            old(self).wf(),
        ensures
            final(self).wf(),
            go == may_repair(old(self)@, peer@, now),
            go ==> final(self)@ == repairing(old(self)@, peer@, now),
            !go ==> final(self)@ == old(self)@,
    {
        let name = peer.to_string();
        if let Some(last) = self.repairs.get(&name) {
            if (now as i128) - (*last as i128) < REPAIR_INTERVAL_MS as i128 {
                return false;
            }
        }
        self.repairs.put(name, now);
        if self.session {
            self.db.reset_session(peer, THE_DEVICE);
        }
        true
    }

    /// Decides what to do about a message that could not be read. Two very
    /// different things look the same from here: a ratchet one of us lost, or
    /// somebody else holding the other end. The published key tells them apart,
    /// and only the first is ours to fix.
    pub fn unreadable(&mut self, sender: &str, published: &Option<String>, now: i64) -> (step:
        UnreadableStep)
        requires
            old(self).wf(),
        ensures
            final(self).wf(),
            ({
                let known = known_identity(old(self)@.db, sender@);
                if conflicts(known, text_in(*published)) {
                    &&& step is Disputed
                    &&& event_seen(step->event) == dispute_event(
                        old(self)@,
                        sender@,
                        known->0,
                        published->0@,
                        now,
                    )
                    &&& final(self)@ == in_dispute(old(self)@, sender@, published->0@, now)
                } else if may_repair(old(self)@, sender@, now) {
                    step is Rebuild && final(self)@ == repairing(old(self)@, sender@, now)
                } else {
                    step is Wait && final(self)@ == old(self)@
                }
            }),
    {
        let known = match self.db.known_identity_b64(sender, THE_DEVICE) {
            Ok(known) => known,
            Err(_) => None,
        };
        if identity_conflict(&known, published) {
            match (&known, published) {
                (Some(known), Some(published)) => {
                    let event = self.dispute(sender, known, published, now);
                    return UnreadableStep::Disputed { event };
                },
                _ => {
                    assert(false);
                },
            }
        }
        if self.begin_repair(sender, now) {
            UnreadableStep::Rebuild
        } else {
            UnreadableStep::Wait
        }
    }

    /// Accepts the key a contact is now publishing, after the user confirmed the
    /// change was really them. Everything held for the old key goes, and the next
    /// message negotiates afresh.
    pub fn accept_identity(&mut self, contact: &str)
        requires
            old(self).wf(),
        ensures
            final(self).wf(),
            final(self)@ == identity_accepted(old(self)@, contact@),
    {
        let name = contact.to_string();
        self.disputed.remove(&name);
        if self.session {
            self.db.forget_identity(contact, THE_DEVICE);
        }
    }

    /// What a peer never acknowledged, the oldest first: to be sent again once
    /// their session has been rebuilt.
    pub fn undelivered_to(&self, peer: &str) -> (list: Vec<StoredMessage>)
        requires
            self.wf(),
        ensures
            is_message_list(list@, self@.db.messages, |m: MessageView| undelivered(m, peer@)),
    {
        self.db.undelivered_to(peer)
    }

    /// A message was sent again: the stored one follows the identifier the server
    /// gave the new copy, keeping one entry in the conversation and letting
    /// receipts land.
    pub fn resent(&mut self, old_id: &str, new_id: &str) -> (event: Option<ClientEvent>)
        requires
            old(self).wf(),
        ensures
            final(self).wf(),
            match reassigned(old(self)@.db.messages, old_id@, new_id@) {
                Some(messages) => {
                    &&& final(self)@ == (ActorView {
                        db: with_messages(old(self)@.db, messages),
                        ..old(self)@
                    })
                    &&& event_seen(event) == (if old(self)@.connected {
                        Some(
                            ClientEventView::MessageResent { old_id: old_id@, new_id: new_id@ },
                        )
                    } else {
                        None
                    })
                },
                None => event is None && final(self)@ == old(self)@,
            },
    {
        match self.db.reassign_message_id(old_id, new_id) {
            Ok(_) => {},
            Err(_) => {
                return None;
            },
        }
        if self.connected {
            Some(
                ClientEvent::MessageResent {
                    old_id: old_id.to_string(),
                    new_id: new_id.to_string(),
                },
            )
        } else {
            None
        }
    }

    /// Takes in a receipt for one of our messages.
    pub fn receipt(&mut self, id: &str, state: &str, at: i64) -> (event: Option<ClientEvent>)
        requires
            old(self).wf(),
        ensures
            final(self).wf(),
            final(self)@ == (ActorView {
                db: with_messages(
                    old(self)@.db,
                    if old(self)@.db.messages.contains_key(id@) {
                        old(self)@.db.messages.insert(
                            id@,
                            state_reported(old(self)@.db.messages[id@], state@, Some(at)),
                        )
                    } else {
                        old(self)@.db.messages
                    },
                ),
                ..old(self)@
            }),
            event_seen(event) == (if old(self)@.connected {
                Some(ClientEventView::Receipt { id: id@, state: state@, at })
            } else {
                None
            }),
    {
        self.db.set_message_state(id, state, Some(at));
        if self.connected {
            Some(ClientEvent::Receipt { id: id.to_string(), state: state.to_string(), at })
        } else {
            None
        }
    }
}

/// The client once the user accepted a contact's new key.
pub open spec fn identity_accepted(a: ActorView, contact: Seq<char>) -> ActorView {
    let settled = ActorView { disputed: a.disputed.remove(contact), ..a };
    if a.session {
        ActorView { db: identity_forgotten(a.db, contact, THE_DEVICE), ..settled }
    } else {
        settled
    }
}

/// Once a contact publishes another key than the one that was pinned, nothing is
/// sent to them and nothing of theirs is read, until the user accepts the new
/// key; and the pinned key is kept until then.
pub proof fn a_changed_key_stops_everything_until_it_is_accepted(
    a: ActorView,
    contact: Seq<char>,
    published: Seq<char>,
    now: i64,
)
    ensures
        send_refused(in_dispute(a, contact, published, now), contact) is Some,
        in_dispute(a, contact, published, now).disputed.contains_key(contact),
        in_dispute(a, contact, published, now).db.identities == a.db.identities,
        a.session ==> send_refused(
            identity_accepted(in_dispute(a, contact, published, now), contact),
            contact,
        ) is None,
        a.session ==> pinned(
            identity_accepted(in_dispute(a, contact, published, now), contact).db,
            contact,
            THE_DEVICE,
        ) is None,
{
}

/// An unreadable message never un-pins anybody, whatever the server says: neither
/// a dispute nor a repair forgets a key, and a repair drops but the one ratchet.
pub proof fn an_unreadable_message_keeps_every_pin(
    a: ActorView,
    peer: Seq<char>,
    published: Seq<char>,
    now: i64,
)
    ensures
        in_dispute(a, peer, published, now).db.identities == a.db.identities,
        in_dispute(a, peer, published, now).db.sessions == a.db.sessions,
        repairing(a, peer, now).db.identities == a.db.identities,
        repairing(a, peer, now).db.messages == a.db.messages,
{
}

/// A broken session is rebuilt once a minute at most.
pub proof fn repairs_are_spaced_out(a: ActorView, peer: Seq<char>, first: i64, second: i64)
    requires
        second - first < REPAIR_INTERVAL_MS,
    ensures
        !may_repair(repairing(a, peer, first), peer, second),
{
}

/// The same key is put to the user once.
pub proof fn a_key_is_put_to_the_user_once(
    a: ActorView,
    contact: Seq<char>,
    known: Seq<char>,
    published: Seq<char>,
    first: i64,
    second: i64,
)
    ensures
        dispute_event(in_dispute(a, contact, published, first), contact, known, published, second) is None,
        in_dispute(in_dispute(a, contact, published, first), contact, published, second).db
            == in_dispute(a, contact, published, first).db,
{
}

/// Instructions for the other device never show up in a conversation: neither one
/// that was sent, nor one that was received, adds a message.
pub proof fn control_messages_stay_out_of_conversations(
    a: ActorView,
    m: IncomingView,
    plain: Seq<u8>,
    now: i64,
    id: Seq<char>,
)
    requires
        control(content_in(plain).0),
        after_receiving(a, m, plain, now).db.messages.contains_key(id),
    ensures
        a.db.messages.contains_key(id),
        after_receiving(a, m, plain, now).db.messages[id] == a.db.messages[id],
{
}

} // verus!
