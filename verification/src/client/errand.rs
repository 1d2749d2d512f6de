//! One message on its way, out or in: what is to be done next, given what came of
//! what was done before. Whoever runs the client does what is asked and answers.
#[allow(unused_imports)]
use vstd::utf8::encode_utf8;
use vstd::prelude::*;

use crate::api::{reply_text, IncomingMessage};
#[allow(unused_imports)]
use crate::api::IncomingView;
use crate::client::commands::Parcel;
#[allow(unused_imports)]
use crate::client::commands::parcel;
use crate::client::traffic::{Received, SendStep, UnreadableStep};
#[allow(unused_imports)]
use crate::client::traffic::{
    after_receiving, dispute_event, in_dispute, known_identity, may_repair, received_event,
    received_message, repairing, send_refused, sent_message,
};
#[allow(unused_imports)]
use crate::client::{control, event_seen, ActorView, ClientEventView};
use crate::client::{Actor, ClientEvent, ClientFault, THE_DEVICE};
#[allow(unused_imports)]
use crate::db::contacts::with_contact;
#[allow(unused_imports)]
use crate::db::messages::{
    is_message_list, message_added, reassigned, undelivered, with_messages,
};
#[allow(unused_imports)]
use crate::db::records::{address_of, pinned};
use crate::db::StoredMessage;
#[allow(unused_imports)]
use crate::db::{can_seal, MessageView};
#[allow(unused_imports)]
use crate::engine::{conflicts, content_in, content_json, fields_or_none};
#[allow(unused_imports)]
use crate::json::text_field;
use crate::keystore::StorageError;
#[allow(unused_imports)]
use crate::text::text_in;

verus! {

/// What is to be done next.
pub enum Ask {
    /// Fetch somebody's profile.
    Profile { of: String },
    /// Fetch somebody's published keys.
    Bundle { of: String },
    /// Establish a session from published keys.
    Establish { with: String, bundle: String },
    /// Encrypt a payload.
    Encrypt { to: String, payload: Vec<u8> },
    /// Hand an envelope to the relay.
    Deliver { to: String, envelope: String },
    /// Decrypt an envelope.
    Decrypt { from: String, device: u32, envelope: String },
    /// Acknowledge a message.
    Ack { id: String },
    /// Drop a message without telling its sender that it arrived.
    Discard { id: String },
}

/// What is to be done next, as a plain value.
pub enum AskView {
    Profile { of: Seq<char> },
    Bundle { of: Seq<char> },
    Establish { with: Seq<char>, bundle: Seq<char> },
    Encrypt { to: Seq<char>, payload: Seq<u8> },
    Deliver { to: Seq<char>, envelope: Seq<char> },
    Decrypt { from: Seq<char>, device: u32, envelope: Seq<char> },
    Ack { id: Seq<char> },
    Discard { id: Seq<char> },
}

impl View for Ask {
    type V = AskView;

    open spec fn view(&self) -> AskView {
        match self {
            Ask::Profile { of } => AskView::Profile { of: of@ },
            Ask::Bundle { of } => AskView::Bundle { of: of@ },
            Ask::Establish { with, bundle } => AskView::Establish { with: with@, bundle: bundle@ },
            Ask::Encrypt { to, payload } => AskView::Encrypt { to: to@, payload: payload@ },
            Ask::Deliver { to, envelope } => AskView::Deliver { to: to@, envelope: envelope@ },
            Ask::Decrypt { from, device, envelope } => AskView::Decrypt {
                from: from@,
                device: *device,
                envelope: envelope@,
            },
            Ask::Ack { id } => AskView::Ack { id: id@ },
            Ask::Discard { id } => AskView::Discard { id: id@ },
        }
    }
}

/// What came of what was done.
pub enum Answer {
    /// It failed.
    Failed,
    /// It worked, and there is nothing more to say.
    Done,
    Profile { alias: String, identity_key: String },
    Bundle { text: String },
    Envelope { text: String },
    Id { id: String },
    Plain { bytes: Vec<u8> },
}

/// What an outgoing message waits for.
#[derive(Clone, Copy, Debug, PartialEq, Eq, Structural)]
pub enum Stage {
    Profile,
    Bundle,
    Session,
    Envelope,
    Id,
}

/// A message on its way out.
pub struct Errand {
    pub recipient: String,
    pub kind: String,
    pub content: String,
    /// The stored message that this one is sent again for.
    pub resend_of: Option<String>,
    pub payload: Vec<u8>,
    pub alias: String,
    pub stage: Stage,
}

/// A message on its way out, as a plain value.
pub struct ErrandView {
    pub recipient: Seq<char>,
    pub kind: Seq<char>,
    pub content: Seq<char>,
    pub resend_of: Option<Seq<char>>,
    pub payload: Seq<u8>,
    pub alias: Seq<char>,
    pub stage: Stage,
}

impl View for Errand {
    type V = ErrandView;

    open spec fn view(&self) -> ErrandView {
        ErrandView {
            recipient: self.recipient@,
            kind: self.kind@,
            content: self.content@,
            resend_of: text_in(self.resend_of),
            payload: self.payload@,
            alias: self.alias@,
            stage: self.stage,
        }
    }
}

/// Why a message does not go out.
#[derive(Clone, Copy, Debug, PartialEq, Eq, Structural)]
pub enum SendFault {
    /// The client refuses.
    Client(ClientFault),
    /// The relay or the encryption failed.
    Outside,
}

/// How an outgoing message goes on.
pub enum Step {
    /// There is something to do.
    Go { errand: Errand, ask: Ask },
    /// It went out, and this is what is kept of it.
    Sent { stored: StoredMessage },
    /// It went out again.
    Resent { event: Option<ClientEvent> },
    /// It does not go out.
    Stopped { fault: SendFault, event: Option<ClientEvent> },
}

/// How an outgoing message goes on, as a plain value.
pub enum StepView {
    Go { errand: ErrandView, ask: AskView },
    Sent { stored: MessageView },
    Resent { event: Option<ClientEventView> },
    Stopped { fault: SendFault, event: Option<ClientEventView> },
}

impl View for Step {
    type V = StepView;

    open spec fn view(&self) -> StepView {
        match self {
            Step::Go { errand, ask } => StepView::Go { errand: errand@, ask: ask@ },
            Step::Sent { stored } => StepView::Sent { stored: stored@ },
            Step::Resent { event } => StepView::Resent { event: event_seen(*event) },
            Step::Stopped { fault, event } => StepView::Stopped {
                fault: *fault,
                event: event_seen(*event),
            },
        }
    }
}

/// The identity key that a bundle carries, where it carries one.
pub open spec fn published_in(bundle: Seq<char>) -> Option<Seq<char>> {
    text_field(fields_or_none(bundle), "identity_key"@)
}

/// The first step of a message.
pub open spec fn first_step(
    a: ActorView,
    recipient: Seq<char>,
    kind: Seq<char>,
    content: Seq<char>,
    resend_of: Option<Seq<char>>,
) -> StepView {
    match send_refused(a, recipient) {
        Some(fault) => StepView::Stopped { fault: SendFault::Client(fault), event: None },
        None => StepView::Go {
            errand: ErrandView {
                recipient,
                kind,
                content,
                resend_of,
                payload: encode_utf8(content_json(kind, content)),
                alias: Seq::empty(),
                stage: Stage::Profile,
            },
            ask: AskView::Profile { of: recipient },
        },
    }
}

/// The step behind a bundle, and the client then. A bundle whose identity key is
/// not the one we pinned stops the message; otherwise it is encrypted, in the
/// session there is or in one that is established first.
pub open spec fn step_from_bundle(a: ActorView, e: ErrandView, bundle: Seq<char>, now: i64) -> (
    ActorView,
    Option<StepView>,
) {
    let known = known_identity(a.db, e.recipient);
    let published = published_in(bundle);
    if pinned(a.db, e.recipient, THE_DEVICE) == Some(None::<Seq<u8>>) {
        (a, None)
    } else if conflicts(known, published) {
        (
            in_dispute(a, e.recipient, published->0, now),
            Some(
                StepView::Stopped {
                    fault: SendFault::Client(ClientFault::IdentityChanged),
                    event: dispute_event(a, e.recipient, known->0, published->0, now),
                },
            ),
        )
    } else if a.db.sessions.contains_key(address_of(e.recipient, 1)) {
        (
            a,
            Some(
                StepView::Go {
                    errand: ErrandView { stage: Stage::Envelope, ..e },
                    ask: AskView::Encrypt { to: e.recipient, payload: e.payload },
                },
            ),
        )
    } else {
        (
            a,
            Some(
                StepView::Go {
                    errand: ErrandView { stage: Stage::Session, ..e },
                    ask: AskView::Establish { with: e.recipient, bundle },
                },
            ),
        )
    }
}

/// The client once the relay took an envelope: the recipient is in the cache, and
/// the message in the conversation, unless it is a control message; one that was
/// sent again moves to its new identifier.
pub open spec fn after_delivery(a: ActorView, e: ErrandView, id: Seq<char>, now: i64) -> (
    ActorView,
    StepView,
) {
    let known = ActorView { db: with_contact(a.db, e.recipient, e.alias, "accepted"@), ..a };
    let too_long = StepView::Stopped {
        fault: SendFault::Client(ClientFault::Storage(StorageError::TooLong)),
        event: None,
    };
    let m = sent_message(id, e.recipient, e.kind, e.content, now);
    if !can_seal(a.secret, encode_utf8(e.alias).len()) {
        (a, too_long)
    } else {
        match e.resend_of {
            Some(old_id) => match reassigned(a.db.messages, old_id, id) {
                Some(messages) => (
                    ActorView { db: with_messages(known.db, messages), ..known },
                    StepView::Resent {
                        event: if a.connected {
                            Some(ClientEventView::MessageResent { old_id, new_id: id })
                        } else {
                            None
                        },
                    },
                ),
                None => (known, StepView::Resent { event: None }),
            },
            None => if control(e.kind) {
                (known, StepView::Sent { stored: m })
            } else if can_seal(a.secret, encode_utf8(e.content).len()) {
                (
                    ActorView {
                        db: with_messages(known.db, message_added(a.db.messages, m)),
                        ..known
                    },
                    StepView::Sent { stored: m },
                )
            } else {
                (known, too_long)
            },
        }
    }
}

/// Whether an answer fits what an errand waits for.
pub open spec fn answers(stage: Stage, answer: Answer) -> bool {
    match stage {
        Stage::Profile => answer is Profile,
        Stage::Bundle => answer is Bundle,
        Stage::Session => answer is Done,
        Stage::Envelope => answer is Envelope,
        Stage::Id => answer is Id,
    }
}

/// Whether a step is what an answer leads to.
pub open spec fn leads_to(
    before: ActorView,
    e: ErrandView,
    answer: Answer,
    now: i64,
    after: ActorView,
    step: StepView,
) -> bool {
    if !answers(e.stage, answer) {
        after == before && step == (StepView::Stopped { fault: SendFault::Outside, event: None })
    } else {
        match answer {
            Answer::Profile { alias, .. } => after == before && step == (StepView::Go {
                errand: ErrandView { alias: alias@, stage: Stage::Bundle, ..e },
                ask: AskView::Bundle { of: e.recipient },
            }),
            Answer::Bundle { text } => {
                let next = step_from_bundle(before, e, text@, now);
                after == next.0 && match next.1 {
                    Some(s) => step == s,
                    None => step is Stopped && step->fault is Client && step->fault->Client_0 is Storage
                        && step->Stopped_event is None,
                }
            },
            Answer::Done => after == before && step == (StepView::Go {
                errand: ErrandView { stage: Stage::Envelope, ..e },
                ask: AskView::Encrypt { to: e.recipient, payload: e.payload },
            }),
            Answer::Envelope { text } => after == before && step == (StepView::Go {
                errand: ErrandView { stage: Stage::Id, ..e },
                ask: AskView::Deliver { to: e.recipient, envelope: text@ },
            }),
            Answer::Id { id } => (after, step) == after_delivery(before, e, id@, now),
            _ => false,
        }
    }
}

impl Actor {
    /// Sets out to send a message.
    pub fn start_errand(
        &self,
        recipient: &str,
        kind: &str,
        content: &str,
        resend_of: Option<String>,
    ) -> (step: Step)
        requires
            self.wf(),
        ensures
            step@ == first_step(self@, recipient@, kind@, content@, text_in(resend_of)),
    {
        match self.begin_send(recipient, kind, content) {
            Err(fault) => Step::Stopped { fault: SendFault::Client(fault), event: None },
            Ok(payload) => {
                let errand = Errand {
                    recipient: recipient.to_string(),
                    kind: kind.to_string(),
                    content: content.to_string(),
                    resend_of,
                    payload,
                    alias: String::new(),
                    stage: Stage::Profile,
                };
                assert(errand.alias@ =~= Seq::<char>::empty());
                Step::Go { errand, ask: Ask::Profile { of: recipient.to_string() } }
            },
        }
    }

    /// Goes on with a message, given what came of the last step.
    pub fn advance(&mut self, e: Errand, answer: Answer, now: i64) -> (step: Step)
        requires
            old(self).wf(),
        ensures
            final(self).wf(),
            leads_to(old(self)@, e@, answer, now, final(self)@, step@),
    {
        let failed = Step::Stopped { fault: SendFault::Outside, event: None };
        match e.stage {
            Stage::Profile => match answer {
                Answer::Profile { alias, .. } => {
                    let ask = Ask::Bundle { of: e.recipient.clone() };
                    let mut errand = e;
                    errand.alias = alias;
                    errand.stage = Stage::Bundle;
                    Step::Go { errand, ask }
                },
                _ => failed,
            },
            Stage::Bundle => match answer {
                Answer::Bundle { text } => {
                    let published = reply_text(&text, "identity_key");
                    match self.check_bundle(&e.recipient, &published, now) {
                        SendStep::Refused { event } => Step::Stopped {
                            fault: SendFault::Client(ClientFault::IdentityChanged),
                            event,
                        },
                        SendStep::Unreadable(fault) => Step::Stopped {
                            fault: SendFault::Client(ClientFault::Storage(fault)),
                            event: None,
                        },
                        SendStep::NeedsSession => {
                            let ask = Ask::Establish { with: e.recipient.clone(), bundle: text };
                            let mut errand = e;
                            errand.stage = Stage::Session;
                            Step::Go { errand, ask }
                        },
                        SendStep::Ready => {
                            let ask = encrypt_ask(&e);
                            let mut errand = e;
                            errand.stage = Stage::Envelope;
                            Step::Go { errand, ask }
                        },
                    }
                },
                _ => failed,
            },
            Stage::Session => match answer {
                Answer::Done => {
                    let ask = encrypt_ask(&e);
                    let mut errand = e;
                    errand.stage = Stage::Envelope;
                    Step::Go { errand, ask }
                },
                _ => failed,
            },
            Stage::Envelope => match answer {
                Answer::Envelope { text } => {
                    let ask = Ask::Deliver { to: e.recipient.clone(), envelope: text };
                    let mut errand = e;
                    errand.stage = Stage::Id;
                    Step::Go { errand, ask }
                },
                _ => failed,
            },
            Stage::Id => match answer {
                Answer::Id { id } => self.delivered(&e, &id, now),
                _ => failed,
            },
        }
    }

    /// The relay took an envelope.
    fn delivered(&mut self, e: &Errand, id: &str, now: i64) -> (step: Step)
        requires
            old(self).wf(),
        ensures
            final(self).wf(),
            (final(self)@, step@) == after_delivery(old(self)@, e@, id@, now),
    {
        match self.envelope_sent(&e.recipient, &e.alias) {
            Ok(_) => {},
            Err(fault) => {
                return Step::Stopped { fault: SendFault::Client(fault), event: None };
            },
        }
        match &e.resend_of {
            Some(old_id) => {
                let event = self.resent(old_id, id);
                Step::Resent { event }
            },
            None => match self.message_sent(id, &e.recipient, &e.kind, &e.content, now) {
                Ok(stored) => Step::Sent { stored },
                Err(fault) => Step::Stopped { fault: SendFault::Client(fault), event: None },
            },
        }
    }
}

/// What is asked once a message can be encrypted.
fn encrypt_ask(e: &Errand) -> (ask: Ask)
    ensures
        ask@ == (AskView::Encrypt { to: e@.recipient, payload: e@.payload }),
{
    Ask::Encrypt { to: e.recipient.clone(), payload: crate::db::copy_bytes(&e.payload) }
}

/// Nothing is encrypted for a contact whose key changed: from a bundle a message
/// goes on only where the key in it is the one that was pinned, or none was.
pub proof fn nothing_is_encrypted_for_a_changed_key(
    before: ActorView,
    e: ErrandView,
    bundle: Seq<char>,
    now: i64,
)
    requires
        conflicts(known_identity(before.db, e.recipient), published_in(bundle)),
    ensures
        step_from_bundle(before, e, bundle, now).1 is Some,
        step_from_bundle(before, e, bundle, now).1->0 is Stopped,
        step_from_bundle(before, e, bundle, now).0.disputed.contains_key(e.recipient),
{
}

/// No message is encrypted before the keys of its recipient were looked at, and
/// none is handed to the relay that was not encrypted.
pub proof fn a_message_goes_step_by_step(
    before: ActorView,
    e: ErrandView,
    answer: Answer,
    now: i64,
    after: ActorView,
    step: StepView,
)
    requires
        leads_to(before, e, answer, now, after, step),
        step is Go,
    ensures
        step->ask is Encrypt ==> e.stage == Stage::Bundle || e.stage == Stage::Session,
        step->errand.stage == Stage::Session ==> e.stage == Stage::Bundle,
        step->ask is Deliver ==> e.stage == Stage::Envelope,
        step->errand.recipient == e.recipient,
        step->errand.payload == e.payload,
{
}

/// What an incoming message waits for.
pub enum Intake {
    /// To be decrypted.
    Plain,
    /// To be acknowledged, once it was read.
    Ack { plain: Vec<u8> },
    /// To be dropped, once it turned out unreadable.
    Discard,
    /// For the name of its sender, who is missing from the cache.
    Name,
    /// For the key that its sender publishes, to tell what went wrong.
    Key,
}

/// A message on its way in.
pub struct Reception {
    pub message: IncomingMessage,
    pub stage: Intake,
}

/// How an incoming message goes on.
pub enum InStep {
    /// There is something to do. What was read already comes along.
    Go { reception: Reception, ask: Ask, received: Option<Received> },
    /// It is to be dropped, and that is all: nothing of its sender is read.
    Drop { id: String },
    /// It was taken in.
    Taken { received: Option<Received> },
    /// It could not be read, and this is what follows.
    Unreadable { step: UnreadableStep },
    /// There is no session to read it in.
    Nothing,
}

/// Whether what was received is what a message and its contents come to.
pub open spec fn received_from(
    received: Received,
    before: ActorView,
    m: IncomingView,
    plain: Seq<u8>,
    now: i64,
) -> bool {
    &&& event_seen(received.event) == received_event(before, m, plain)
    &&& text_in(received.resend_to) == (if content_in(plain).0 == "rekey"@ {
        Some(m.sender)
    } else {
        None
    })
    &&& match received.stored {
        Some(stored) => !control(content_in(plain).0) && stored@ == received_message(
            m,
            content_in(plain).0,
            content_in(plain).1,
            now,
        ),
        None => control(content_in(plain).0),
    }
    &&& received.unknown_sender == needs_a_name(before, m, plain)
}

/// Whether the sender of a message has to be looked up.
pub open spec fn needs_a_name(a: ActorView, m: IncomingView, plain: Seq<u8>) -> bool {
    !control(content_in(plain).0) && !a.db.contacts.contains_key(m.sender)
}

impl Actor {
    /// Sets out to take in a message: not without a session, and nothing of a
    /// sender whose key is in dispute, which is dropped so that they send it again
    /// once that is settled.
    pub fn start_reception(&self, message: IncomingMessage) -> (step: InStep)
        requires
            self.wf(),
        ensures
            if !self@.session {
                step is Nothing
            } else if self@.disputed.contains_key(message@.sender) {
                step is Drop && step->id@ == message@.id
            } else {
                &&& step is Go
                &&& step->reception.message@ == message@
                &&& step->reception.stage is Plain
                &&& step->ask@ == (AskView::Decrypt {
                    from: message@.sender,
                    device: message@.sender_device,
                    envelope: message@.body,
                })
                &&& step->Go_received is None
            },
    {
        if !self.session {
            return InStep::Nothing;
        }
        if !self.may_read(&message.sender) {
            return InStep::Drop { id: message.id };
        }
        let ask = Ask::Decrypt {
            from: message.sender.clone(),
            device: message.sender_device,
            envelope: message.body.clone(),
        };
        InStep::Go {
            reception: Reception { message, stage: Intake::Plain },
            ask,
            received: None,
        }
    }

    /// Goes on with an incoming message, given what came of the last step. One that
    /// was read is acknowledged and taken in; one that was not is dropped rather
    /// than acknowledged: telling the sender it arrived would stop them from
    /// sending it again once we can read them.
    pub fn advance_reception(&mut self, r: Reception, answer: Answer, now: i64) -> (step: InStep)
        requires
            old(self).wf(),
        ensures
            final(self).wf(),
            match r.stage {
                Intake::Plain => final(self)@ == old(self)@ && step is Go
                    && step->reception.message@ == r.message@ && step->Go_received is None && (
                match answer {
                    Answer::Plain { bytes } => step->ask@ == (AskView::Ack { id: r.message@.id })
                        && step->reception.stage is Ack && step->reception.stage->plain@ == bytes@,
                    _ => step->ask@ == (AskView::Discard { id: r.message@.id })
                        && step->reception.stage is Discard,
                }),
                Intake::Ack { plain } => {
                    &&& final(self)@ == after_receiving(old(self)@, r.message@, plain@, now)
                    &&& needs_a_name(old(self)@, r.message@, plain@) ==> {
                        &&& step is Go
                        &&& step->reception.message@ == r.message@
                        &&& step->reception.stage is Name
                        &&& step->ask@ == (AskView::Profile { of: r.message@.sender })
                        &&& step->Go_received is Some
                        &&& received_from(
                            step->Go_received->0,
                            old(self)@,
                            r.message@,
                            plain@,
                            now,
                        )
                    }
                    &&& !needs_a_name(old(self)@, r.message@, plain@) ==> {
                        &&& step is Taken
                        &&& step->Taken_received is Some
                        &&& received_from(
                            step->Taken_received->0,
                            old(self)@,
                            r.message@,
                            plain@,
                            now,
                        )
                    }
                },
                Intake::Name => {
                    let alias = match answer {
                        Answer::Profile { alias, .. } => alias@,
                        _ => r.message@.sender,
                    };
                    &&& step is Taken
                    &&& step->Taken_received is None
                    &&& final(self)@ == (if can_seal(
                        old(self)@.secret,
                        encode_utf8(alias).len(),
                    ) {
                        ActorView {
                            db: with_contact(
                                old(self)@.db,
                                r.message@.sender,
                                alias,
                                "accepted"@,
                            ),
                            ..old(self)@
                        }
                    } else {
                        old(self)@
                    })
                },
                Intake::Discard => final(self)@ == old(self)@ && step is Go
                    && step->reception.message@ == r.message@ && step->reception.stage is Key
                    && step->ask@ == (AskView::Profile { of: r.message@.sender })
                    && step->Go_received is None,
                Intake::Key => {
                    let published = match answer {
                        Answer::Profile { identity_key, .. } => Some(identity_key@),
                        _ => None,
                    };
                    let known = known_identity(old(self)@.db, r.message@.sender);
                    let sender = r.message@.sender;
                    &&& step is Unreadable
                    &&& if conflicts(known, published) {
                        &&& step->Unreadable_step is Disputed
                        &&& event_seen(step->Unreadable_step->event) == dispute_event(
                            old(self)@,
                            sender,
                            known->0,
                            published->0,
                            now,
                        )
                        &&& final(self)@ == in_dispute(old(self)@, sender, published->0, now)
                    } else if may_repair(old(self)@, sender, now) {
                        step->Unreadable_step is Rebuild && final(self)@ == repairing(
                            old(self)@,
                            sender,
                            now,
                        )
                    } else {
                        step->Unreadable_step is Wait && final(self)@ == old(self)@
                    }
                },
            },
    {
        let message = r.message;
        match r.stage {
            Intake::Plain => {
                let id = message.id.clone();
                match answer {
                    Answer::Plain { bytes } => InStep::Go {
                        reception: Reception { message, stage: Intake::Ack { plain: bytes } },
                        ask: Ask::Ack { id },
                        received: None,
                    },
                    _ => InStep::Go {
                        reception: Reception { message, stage: Intake::Discard },
                        ask: Ask::Discard { id },
                        received: None,
                    },
                }
            },
            Intake::Ack { plain } => {
                let received = self.receive(&message, &plain, now);
                if received.unknown_sender {
                    let ask = Ask::Profile { of: message.sender.clone() };
                    InStep::Go {
                        reception: Reception { message, stage: Intake::Name },
                        ask,
                        received: Some(received),
                    }
                } else {
                    InStep::Taken { received: Some(received) }
                }
            },
            Intake::Name => {
                let alias = match answer {
                    Answer::Profile { alias, .. } => alias,
                    _ => message.sender.clone(),
                };
                self.learn_contact(&message.sender, &alias);
                InStep::Taken { received: None }
            },
            Intake::Discard => {
                let ask = Ask::Profile { of: message.sender.clone() };
                InStep::Go {
                    reception: Reception { message, stage: Intake::Key },
                    ask,
                    received: None,
                }
            },
            Intake::Key => {
                let published = match answer {
                    Answer::Profile { identity_key, .. } => Some(identity_key),
                    _ => None,
                };
                let step = self.unreadable(&message.sender, &published, now);
                InStep::Unreadable { step }
            },
        }
    }
}

/// What is sent to a peer to rebuild the session with them: anything would do, as
/// it carries a fresh handshake.
pub fn rekey_parcel(peer: &str) -> (rekey: Parcel)
    ensures
        rekey@ == parcel(peer@, "rekey"@, ""@),
{
    Parcel { to: peer.to_string(), kind: "rekey".to_string(), content: "".to_string() }
}

/// What is left to be sent to a peer again.
pub struct Resend {
    pub peer: String,
    pub rest: Vec<StoredMessage>,
}

/// How sending again goes on.
pub enum ResendStep {
    /// This one is sent again, for the stored message of that number.
    Send { resend: Resend, parcel: Parcel, of: String },
    /// That is all.
    Over,
}

impl Actor {
    /// Sets out to send a peer again what they never acknowledged. Called once their
    /// session has been rebuilt: those messages were encrypted for a ratchet they no
    /// longer have, so they would never arrive.
    pub fn start_resend(&self, peer: &str) -> (resend: Resend)
        requires
            self.wf(),
        ensures
            resend.peer@ == peer@,
            is_message_list(
                resend.rest@,
                self@.db.messages,
                |m: MessageView| undelivered(m, peer@),
            ),
    {
        Resend { peer: peer.to_string(), rest: self.undelivered_to(peer) }
    }
}

/// The next message that is sent again, in order, as long as each one went out: if
/// one does not, the session is broken again or the server is gone, and the rest
/// will not fare better.
pub fn next_resend(resend: Resend, went_out: bool) -> (step: ResendStep)
    ensures
        if went_out && resend.rest@.len() > 0 {
            let next = resend.rest@[0]@;
            &&& step is Send
            &&& step->resend.peer@ == resend.peer@
            &&& step->resend.rest@ == resend.rest@.drop_first()
            &&& step->parcel@ == parcel(resend.peer@, next.kind, next.text)
            &&& step->of@ == next.id
        } else {
            step is Over
        },
{
    let mut rest = resend.rest;
    if !went_out || rest.len() == 0 {
        return ResendStep::Over;
    }
    let ghost all = rest@;
    let next = rest.remove(0);
    assert(rest@ =~= all.drop_first());
    let parcel = Parcel { to: resend.peer.clone(), kind: next.kind, content: next.text };
    ResendStep::Send { resend: Resend { peer: resend.peer, rest }, parcel, of: next.id }
}

} // verus!
