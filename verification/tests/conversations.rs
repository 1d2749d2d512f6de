//! Whole conversations: clients and a relay in one process. The encryption in
//! between is a stand-in that keeps what matters here: who a message is from, which
//! session it belongs to, and that nothing of it can be read in passing.

use base64::engine::general_purpose::STANDARD;
use base64::Engine;
use hush::api::{reply_text, ContactEntry, IncomingMessage};
use hush::client::commands::{Call, Command, ContactVerb, Outcome, Parcel, Reply, Turn};
use hush::client::errand::{
    next_resend, rekey_parcel, Answer, Ask, InStep, ResendStep, SendFault, Step,
};
use hush::client::traffic::UnreadableStep;
use hush::client::Actor;
use hush::db::records::{addr_key, fresh_registration_id};
use hush::db::{AddressStore, LocalDb, StoredMessage};
use hush::engine::{read_envelope, write_envelope, EnvelopeKind};
use hush::server::accounts::RegisterRequest;
use hush::server::keys::{PrekeyUpload, UploadKeysRequest};
use hush::server::live::{Notice, Push};
use hush::server::profile::write_presence;
use hush::server::sessions::AuthUser;
use hush::server::store::Relay;

struct World {
    relay: Relay,
    /// What was pushed, and down which stream.
    pushed: Vec<(u64, Push)>,
    now: i64,
    /// How many sessions were established.
    sessions: u8,
}

impl World {
    fn new() -> World {
        World { relay: Relay::new(), pushed: Vec::new(), now: 1_700_000_000_000, sessions: 0 }
    }

    fn tick(&mut self) -> i64 {
        self.now += 1;
        self.now
    }

    fn push(&mut self, notices: Vec<Notice>) {
        for notice in notices {
            self.pushed.push((notice.listener, notice.push));
        }
    }

    fn code(&self, username: &str) -> String {
        self.relay.accounts.get(&username.to_string()).unwrap().verify_code.clone().unwrap()
    }
}

struct Device {
    actor: Actor,
    identity: Vec<u8>,
    token: String,
    stream: Option<u64>,
    refusal: String,
}

impl Device {
    fn new(seed: u8) -> Device {
        let actor = match LocalDb::open(Vec::new(), None) {
            Ok(opened) => Actor::new(opened.db),
            Err(e) => panic!("{}", e.message()),
        };
        let identity = vec![seed; 4];
        Device { actor, identity, token: String::new(), stream: None, refusal: String::new() }
    }

    fn me(&self, w: &World) -> Result<AuthUser, String> {
        let header = format!("Bearer {}", self.token);
        w.relay.authenticate(Some(&header)).map_err(|e| e.code().to_string())
    }

    fn own(&mut self) -> String {
        assert!(self.actor.db.ensure_identity(&self.identity, fresh_registration_id()).is_ok());
        STANDARD.encode(&self.identity)
    }

    fn call(&mut self, w: &mut World, call: Call) -> Result<Outcome, String> {
        let now = w.tick();
        match call {
            Call::Register { username, alias, email, password, .. } => {
                let identity_key = self.own();
                let req = RegisterRequest {
                    username: username.clone(),
                    alias,
                    email,
                    password,
                    registration_id: 7,
                    identity_key,
                };
                w.relay.register(&req, &username, now).map_err(|e| e.code().to_string())?;
                Ok(Outcome::Text { text: None })
            }
            Call::Verify { username, code } => {
                let token = w.relay.verify_account(&username, &code, &username, now);
                self.token = token.map_err(|e| e.code().to_string())?;
                Ok(Outcome::Text { text: Some(self.token.clone()) })
            }
            Call::PublishKeys => {
                let me = self.me(w)?;
                let req = UploadKeysRequest {
                    bundle_static: "{}".to_string(),
                    one_time_prekeys: vec![PrekeyUpload { kind: "ec".into(), data: "K".into() }],
                    identity_key: Some(self.own()),
                    registration_id: Some(7),
                };
                match w.relay.upload_keys(&me, &req) {
                    None => Ok(Outcome::Done),
                    Some(e) => Err(e.code().to_string()),
                }
            }
            Call::Login { username, password, .. } => {
                let session = w.relay.login(&username, &password, true, &username, now);
                let session = session.map_err(|e| e.code().to_string())?;
                if let Some(dropped) = session.dropped {
                    w.pushed.retain(|p| p.0 != dropped);
                }
                w.push(session.notices);
                self.token = session.token;
                Ok(Outcome::Text { text: Some(self.token.clone()) })
            }
            Call::FetchProfile { name } => {
                let me = self.me(w)?;
                let profile = w.relay.get_profile(&me, &name, now);
                let profile = profile.map_err(|e| e.code().to_string())?;
                Ok(Outcome::Text { text: Some(profile.alias) })
            }
            Call::Open { .. } => {
                let me = self.me(w)?;
                let opened = w.relay.message_stream(&me, now).map_err(|e| e.code().to_string())?;
                self.stream = Some(opened.listener);
                w.push(opened.notices);
                for message in opened.backlog {
                    w.pushed.push((opened.listener, Push::Message(message)));
                }
                Ok(Outcome::Done)
            }
            Call::Contact { verb, name } => {
                let me = self.me(w)?;
                let linked = match verb {
                    ContactVerb::Request => w.relay.request_contact(&me, &name, now),
                    ContactVerb::Accept => w.relay.accept_contact(&me, &name, now),
                    ContactVerb::Block => w.relay.block_contact(&me, &name, now),
                    ContactVerb::Remove => {
                        let notices = w.relay.remove_contact(&me, &name);
                        w.push(notices);
                        return Ok(Outcome::Done);
                    }
                };
                let linked = linked.map_err(|e| e.code().to_string())?;
                w.push(linked.notices);
                Ok(Outcome::Text { text: Some(linked.state.text().to_string()) })
            }
            Call::ListContacts => {
                let me = self.me(w)?;
                let list = w.relay.list_contacts(&me).into_iter().map(|c| ContactEntry {
                    username: c.username,
                    alias: c.alias,
                    state: c.state.text().to_string(),
                    status: write_presence(c.status).to_string(),
                    last_seen: c.last_seen,
                    avatar: None,
                });
                Ok(Outcome::Entries { list: list.collect() })
            }
            _ => Ok(Outcome::Done),
        }
    }

    fn run(&mut self, w: &mut World, command: Command) -> Result<Reply, String> {
        let mut turn = self.actor.begin(command, w.tick());
        loop {
            turn = match turn {
                Turn::Answer { reply: Reply::Failed { code } } => return Err(code),
                Turn::Answer { reply } => return Ok(reply),
                Turn::Call { job, call } => {
                    let outcome = match self.call(w, call) {
                        Ok(outcome) => outcome,
                        Err(code) => Outcome::Failed { code },
                    };
                    self.actor.finish(job, outcome)
                }
                Turn::Send { parcels, reply } => {
                    for parcel in parcels {
                        let _ = self.send(w, parcel, None);
                    }
                    return Ok(reply);
                }
                Turn::SendOne { parcel } => return self.send(w, parcel, None).map(|_| Reply::Nothing),
                Turn::Withdraw { parcels, contact } => {
                    for parcel in parcels {
                        let _ = self.send(w, parcel, None);
                    }
                    return Ok(self.actor.withdrawn(&contact));
                }
            };
        }
    }

    fn encrypt(&mut self, to: &str, payload: &[u8]) -> Option<String> {
        let address = addr_key(to, 1);
        let record = self.actor.db.load_record(AddressStore::Sessions, &address).ok()??;
        // The first byte of a session names it, the second says whether the other
        // side has answered in it.
        let kind = if record[1] == 1 { EnvelopeKind::Signal } else { EnvelopeKind::PreKey };
        let mut cipher = vec![record[0]];
        cipher.extend(&self.identity);
        cipher.extend(payload.iter().map(|b| b ^ 0x5a));
        Some(write_envelope(kind, &cipher))
    }

    fn decrypt(&mut self, from: &str, envelope: &str) -> Option<Vec<u8>> {
        let address = addr_key(from, 1);
        let (kind, cipher) = read_envelope(envelope).ok()?;
        let (session, identity) = (cipher[0], cipher[1..5].to_vec());
        if !self.actor.db.is_trusted_identity(&address, &identity).ok()? {
            return None;
        }
        if kind == EnvelopeKind::Signal {
            let record = self.actor.db.load_record(AddressStore::Sessions, &address).ok()??;
            if record[0] != session {
                return None;
            }
        }
        self.actor.db.save_identity(&address, &identity).ok()?;
        self.actor.db.store_record(AddressStore::Sessions, &address, &vec![session, 1]).ok()?;
        Some(cipher[5..].iter().map(|b| b ^ 0x5a).collect())
    }

    fn ask(&mut self, w: &mut World, ask: Ask) -> Answer {
        match self.do_ask(w, ask) {
            Ok(answer) => answer,
            Err(code) => {
                self.refusal = code;
                Answer::Failed
            }
        }
    }

    fn do_ask(&mut self, w: &mut World, ask: Ask) -> Result<Answer, String> {
        let now = w.tick();
        let me = self.me(w)?;
        match ask {
            Ask::Profile { of } => {
                let p = w.relay.get_profile(&me, &of, now).map_err(|e| e.code().to_string())?;
                Ok(Answer::Profile { alias: p.alias, identity_key: p.identity_key })
            }
            Ask::Bundle { of } => {
                let b = w.relay.fetch_bundle(&me, &of, now).map_err(|e| e.code().to_string())?;
                Ok(Answer::Bundle { text: format!(r#"{{"identity_key":"{}"}}"#, b.identity_key) })
            }
            Ask::Establish { with, bundle } => {
                let address = addr_key(&with, 1);
                let key = STANDARD.decode(reply_text(&bundle, "identity_key").unwrap()).unwrap();
                w.sessions += 1;
                assert!(self.actor.db.save_identity(&address, &key).is_ok());
                let record = vec![w.sessions, 0];
                let kept = self.actor.db.store_record(AddressStore::Sessions, &address, &record);
                assert!(kept.is_ok());
                Ok(Answer::Done)
            }
            Ask::Encrypt { to, payload } => {
                let text = self.encrypt(&to, &payload).ok_or("no session")?;
                Ok(Answer::Envelope { text })
            }
            Ask::Deliver { to, envelope } => {
                let sent = w.relay.send_message(&me, &to, &envelope, now);
                let sent = sent.map_err(|e| e.code().to_string())?;
                w.push(sent.notices);
                Ok(Answer::Id { id: sent.id })
            }
            Ask::Decrypt { from, envelope, .. } => {
                let bytes = self.decrypt(&from, &envelope).ok_or("unreadable")?;
                Ok(Answer::Plain { bytes })
            }
            Ask::Ack { id } => {
                let notices = w.relay.ack_message(&me, &id, false, now);
                w.push(notices.map_err(|e| e.code().to_string())?);
                Ok(Answer::Done)
            }
            Ask::Discard { id } => {
                let notices = w.relay.ack_message(&me, &id, true, now);
                w.push(notices.map_err(|e| e.code().to_string())?);
                Ok(Answer::Done)
            }
        }
    }

    fn send(
        &mut self,
        w: &mut World,
        parcel: Parcel,
        resend_of: Option<String>,
    ) -> Result<Option<StoredMessage>, String> {
        let mut step =
            self.actor.start_errand(&parcel.to, &parcel.kind, &parcel.content, resend_of);
        loop {
            step = match step {
                Step::Go { errand, ask } => {
                    let answer = self.ask(w, ask);
                    self.actor.advance(errand, answer, w.tick())
                }
                Step::Sent { stored } => return Ok(Some(stored)),
                Step::Resent { .. } => return Ok(None),
                Step::Stopped { fault: SendFault::Client(fault), .. } => {
                    return Err(fault.message().to_string());
                }
                Step::Stopped { fault: SendFault::Outside, .. } => return Err(self.refusal.clone()),
            };
        }
    }

    fn receive(&mut self, w: &mut World, message: IncomingMessage) {
        let sender = message.sender.clone();
        let mut taken = None;
        let mut step = self.actor.start_reception(message);
        loop {
            step = match step {
                InStep::Go { reception, ask, received } => {
                    taken = received.or(taken);
                    let answer = self.ask(w, ask);
                    self.actor.advance_reception(reception, answer, w.tick())
                }
                InStep::Drop { id } => {
                    self.ask(w, Ask::Discard { id });
                    return;
                }
                InStep::Taken { received } => {
                    if let Some(peer) = received.or(taken).and_then(|r| r.resend_to) {
                        let mut next = next_resend(self.actor.start_resend(&peer), true);
                        while let ResendStep::Send { resend, parcel, of } = next {
                            let sent = self.send(w, parcel, Some(of));
                            next = next_resend(resend, sent.is_ok());
                        }
                    }
                    return;
                }
                InStep::Unreadable { step: UnreadableStep::Rebuild } => {
                    let _ = self.send(w, rekey_parcel(&sender), None);
                    return;
                }
                InStep::Unreadable { .. } | InStep::Nothing => return,
            };
        }
    }

    fn take(&mut self, w: &mut World, push: Push) {
        match push {
            Push::Message(m) => self.receive(
                w,
                IncomingMessage {
                    id: m.id,
                    sender: m.sender,
                    sender_device: 1,
                    body: m.body,
                    created_at: m.created_at,
                },
            ),
            Push::ContactsChanged => {
                if let (Some((job, call)), _) = self.actor.contacts_changed() {
                    let outcome = match self.call(w, call) {
                        Ok(outcome) => outcome,
                        Err(code) => Outcome::Failed { code },
                    };
                    if let Turn::Send { parcels, .. } = self.actor.finish(job, outcome) {
                        for parcel in parcels {
                            let _ = self.send(w, parcel, None);
                        }
                    }
                }
            }
            Push::Receipt { id, state, at } => {
                let _ = self.actor.receipt(&id, state.text(), at);
            }
        }
    }

    fn sign_up(&mut self, w: &mut World, username: &str, alias: &str) {
        let registered = self.run(
            w,
            Command::Register {
                server: "https://s".into(),
                username: username.into(),
                alias: alias.into(),
                email: format!("{username}@example.com"),
                password: "supersecreta".into(),
            },
        );
        assert!(registered.is_ok());
        let code = w.code(username);
        assert!(self.run(w, Command::Verify { code }).is_ok());
    }

    fn sign_in(&mut self, w: &mut World, username: &str) {
        let command = Command::Login {
            server: "https://s".into(),
            username: username.into(),
            password: "supersecreta".into(),
        };
        assert!(self.run(w, command).is_ok());
    }

    fn connect(&mut self, w: &mut World) {
        assert!(self.run(w, Command::Connect).is_ok());
    }

    fn contact(&mut self, w: &mut World, verb: ContactVerb, username: &str) {
        assert!(self.run(w, Command::Contact { verb, username: username.into() }).is_ok());
    }

    fn send_text(&mut self, w: &mut World, to: &str, text: &str) -> Result<StoredMessage, String> {
        let parcel = Parcel { to: to.into(), kind: "text".into(), content: text.into() };
        self.send(w, parcel, None).map(|stored| stored.unwrap())
    }

    fn shows(&self, contact: &str, text: &str) -> bool {
        self.actor.db.history(contact).iter().any(|m| m.text == text)
    }

    fn contacts(&mut self, w: &mut World) -> Vec<ContactEntry> {
        match self.run(w, Command::Contacts) {
            Ok(Reply::Contacts { list }) => list,
            _ => panic!("no contact list"),
        }
    }
}

/// Lets everything that was pushed arrive.
fn settle(w: &mut World, devices: &mut [&mut Device]) {
    let mut left: usize = 1000;
    while !w.pushed.is_empty() {
        assert!(left > 0, "it never settles");
        left -= 1;
        let (stream, push) = w.pushed.remove(0);
        for device in devices.iter_mut() {
            if device.stream == Some(stream) {
                device.take(w, push);
                break;
            }
        }
    }
}

/// Alice and Bob, signed up.
fn two(w: &mut World) -> (Device, Device) {
    let mut alice = Device::new(1);
    alice.sign_up(w, "alice", "Alicia");
    let mut bob = Device::new(2);
    bob.sign_up(w, "bob", "Roberto");
    (alice, bob)
}

/// Alice and Bob, connected and contacts of each other.
fn two_contacts(w: &mut World) -> (Device, Device) {
    let (mut alice, mut bob) = two(w);
    alice.connect(w);
    bob.connect(w);
    alice.contact(w, ContactVerb::Request, "bob");
    bob.contact(w, ContactVerb::Accept, "alice");
    settle(w, &mut [&mut alice, &mut bob]);
    (alice, bob)
}

/// Conversations move to another device through an exported file, and only with
/// the password that made it.
#[test]
fn conversations_move_between_devices_through_an_export() {
    let mut w = World::new();
    let (mut old, mut bob) = two_contacts(&mut w);
    assert_eq!(old.contacts(&mut w)[0].state, "accepted", "the link must be visible from both sides");

    old.send_text(&mut w, "bob", "mensaje que debe sobrevivir").unwrap();
    bob.send_text(&mut w, "alice", "y esta respuesta").unwrap();
    settle(&mut w, &mut [&mut old, &mut bob]);
    assert!(old.shows("bob", "y esta respuesta"));

    // At a cost that leaves time to open the file several times.
    let text = hush::export_json::write_export(&old.actor.gather_export(w.now));
    let cost = hush::transfer::Cost { memory_kib: 64, passes: 1, lanes: 1 };
    let password = "contraseña-del-backup";
    let (salt, nonce) = (vec![1; 16], vec![2; 24]);
    let file = hush::transfer::export_at(text.as_bytes(), password, &salt, &nonce, &cost).unwrap();
    assert!(
        !String::from_utf8_lossy(&file).contains("mensaje que debe sobrevivir"),
        "the file must not carry the conversation in the clear"
    );

    // The new device starts empty, and the wrong password leaves it that way.
    let mut new = Device::new(3);
    new.sign_in(&mut w, "alice");
    assert!(new.actor.db.history("bob").is_empty());
    let import = |password: &str| Command::ImportConversations {
        bytes: file.clone(),
        password: password.to_string(),
    };
    let refused = new.run(&mut w, import("contraseña-equivocada"));
    assert!(matches!(refused, Err(code) if code == "import_wrong_password"));
    assert!(new.actor.db.history("bob").is_empty());

    // With the right one the conversation comes back, both sides of it.
    assert!(matches!(new.run(&mut w, import(password)), Ok(Reply::Count { n: 2 })));
    let history = new.actor.db.history("bob");
    assert!(new.shows("bob", "mensaje que debe sobrevivir"));
    assert!(new.shows("bob", "y esta respuesta"));
    assert!(
        history.iter().find(|m| m.text == "mensaje que debe sobrevivir").expect("ours is there").mine,
        "who wrote what has to survive the trip"
    );

    // Importing the same file again changes nothing.
    assert!(matches!(new.run(&mut w, import(password)), Ok(Reply::Count { n: 0 })));
}

/// A profile picture reaches contacts without the relay ever holding it.
#[test]
fn a_profile_picture_reaches_contacts_encrypted() {
    let mut w = World::new();
    let (mut alice, mut bob) = two_contacts(&mut w);
    let picture = "data:image/png;base64,iVBORw0KGgoAAAANSUhEUg==";
    let command = Command::SetAvatar { avatar: Some(picture.to_string()) };
    assert!(alice.run(&mut w, command).is_ok());

    // The relay holds messages, not pictures: nothing readable is stored.
    assert!(w.relay.messages.len() > 0);
    for row in &w.relay.messages.rows {
        assert!(
            !row.1.body.contains("iVBORw0KGgo"),
            "the picture must never reach the server in the clear"
        );
    }
    settle(&mut w, &mut [&mut alice, &mut bob]);
    let seen = bob.contacts(&mut w)[0].avatar.clone();
    assert_eq!(seen.as_deref(), Some(picture), "the picture never reached the contact; got {seen:?}");

    // And it must not show up as a message in the conversation.
    assert!(bob.actor.db.history("alice").is_empty());

    // Clearing it takes it away from them too.
    assert!(alice.run(&mut w, Command::SetAvatar { avatar: None }).is_ok());
    settle(&mut w, &mut [&mut alice, &mut bob]);
    assert_eq!(bob.contacts(&mut w)[0].avatar, None, "the picture was not cleared");
}

/// An account is one device at a time: signing in somewhere else takes it over,
/// and the conversation carries on at the new place.
#[test]
fn signing_in_elsewhere_takes_the_account_over() {
    let mut w = World::new();
    let (mut laptop, mut bob) = two_contacts(&mut w);
    laptop.send_text(&mut w, "bob", "desde el portátil").unwrap();
    settle(&mut w, &mut [&mut laptop, &mut bob]);
    assert!(bob.shows("alice", "desde el portátil"));

    // Alice signs in on the phone. That is now where the account lives.
    let mut phone = Device::new(3);
    phone.sign_in(&mut w, "alice");
    phone.connect(&mut w);
    phone.send_text(&mut w, "bob", "y ahora desde el teléfono").unwrap();
    settle(&mut w, &mut [&mut laptop, &mut bob, &mut phone]);

    // A new device means a new identity key, and Bob pinned the old one.
    assert_eq!(
        bob.send_text(&mut w, "alice", "te leo en el nuevo").err().as_deref(),
        Some("identity_changed"),
        "a key that changed must stop the message, not be adopted quietly"
    );
    assert!(
        !bob.shows("alice", "y ahora desde el teléfono"),
        "nothing under the new key may be read before it is accepted"
    );

    // Once Bob accepts the change the conversation carries on, and what the phone
    // sent meanwhile is sent again rather than lost.
    assert!(bob.run(&mut w, Command::AcceptIdentity { contact: "alice".into() }).is_ok());
    bob.send_text(&mut w, "alice", "te leo en el nuevo").unwrap();
    settle(&mut w, &mut [&mut laptop, &mut bob, &mut phone]);
    assert!(phone.shows("bob", "te leo en el nuevo"));
    assert!(bob.shows("alice", "y ahora desde el teléfono"));

    // The laptop's token died the moment the phone signed in.
    let refused = laptop.send_text(&mut w, "bob", "sigo aquí");
    assert!(refused.is_err(), "the previous device must be signed out, not left running");
}

/// Blocking someone, lifting the block and adding them again has to leave a
/// working conversation.
#[test]
fn talking_again_after_a_block_works_both_ways() {
    let mut w = World::new();
    let (mut alice, mut bob) = two_contacts(&mut w);
    alice.send_text(&mut w, "bob", "antes del bloqueo").unwrap();
    settle(&mut w, &mut [&mut alice, &mut bob]);
    assert!(bob.shows("alice", "antes del bloqueo"));
    bob.send_text(&mut w, "alice", "recibido").unwrap();
    settle(&mut w, &mut [&mut alice, &mut bob]);
    assert!(alice.shows("bob", "recibido"));

    // Bob blocks, thinks better of it, and they become contacts again.
    bob.contact(&mut w, ContactVerb::Block, "alice");
    bob.contact(&mut w, ContactVerb::Remove, "alice");
    alice.contact(&mut w, ContactVerb::Request, "bob");
    bob.contact(&mut w, ContactVerb::Accept, "alice");

    alice.send_text(&mut w, "bob", "después del desbloqueo").unwrap();
    settle(&mut w, &mut [&mut alice, &mut bob]);
    assert!(bob.shows("alice", "después del desbloqueo"));
    bob.send_text(&mut w, "alice", "yo también te veo").unwrap();
    settle(&mut w, &mut [&mut alice, &mut bob]);
    assert!(alice.shows("bob", "yo también te veo"));
}

/// A device that lost its session state still holds the account keys, so the other
/// side keeps encrypting under a session that no longer exists there. The client
/// has to notice and rebuild it.
#[test]
fn a_contact_who_lost_their_session_can_be_reached_again() {
    let mut w = World::new();
    let (mut alice, mut bob) = two_contacts(&mut w);

    // A full round trip, so Alice's session is established and she stops attaching
    // the handshake to every message.
    alice.send_text(&mut w, "bob", "hola").unwrap();
    settle(&mut w, &mut [&mut alice, &mut bob]);
    assert!(bob.shows("alice", "hola"));
    bob.send_text(&mut w, "alice", "hola alicia").unwrap();
    settle(&mut w, &mut [&mut alice, &mut bob]);
    assert!(alice.shows("bob", "hola alicia"));

    // Bob's session state disappears while his account keys stay.
    bob.actor.db.drop_record(AddressStore::Sessions, "alice:1");

    // Bob cannot read this one, but it must not be lost: once he rebuilds the
    // session, Alice sends again what he never acknowledged.
    let sent = alice.send_text(&mut w, "bob", "primero tras el incidente").unwrap();
    settle(&mut w, &mut [&mut alice, &mut bob]);
    assert!(bob.shows("alice", "primero tras el incidente"));

    // And it stays a single entry on Alice's side, under the id it was finally
    // sent with.
    let history = alice.actor.db.history("bob");
    let resent: Vec<&StoredMessage> =
        history.iter().filter(|m| m.text == "primero tras el incidente").collect();
    assert_eq!(resent.len(), 1, "the resent message must not be duplicated");
    assert_ne!(resent[0].id, sent.id, "it travels under a new id");

    // The conversation works in both directions afterwards.
    alice.send_text(&mut w, "bob", "segundo tras el incidente").unwrap();
    settle(&mut w, &mut [&mut alice, &mut bob]);
    assert!(bob.shows("alice", "segundo tras el incidente"));
    bob.send_text(&mut w, "alice", "te vuelvo a leer").unwrap();
    settle(&mut w, &mut [&mut alice, &mut bob]);
    assert!(alice.shows("bob", "te vuelvo a leer"));
}

/// A message that never arrives can leave the sender holding a session the
/// receiver knows nothing about: blocking someone drops whatever they had queued.
#[test]
fn a_session_the_other_side_never_saw_gets_rebuilt() {
    let mut w = World::new();
    let (mut alice, mut bob) = two(&mut w);
    alice.connect(&mut w);
    alice.contact(&mut w, ContactVerb::Request, "bob");
    bob.contact(&mut w, ContactVerb::Accept, "alice");

    // Bob is offline, so this queues on the relay: it carries the handshake.
    alice.send_text(&mut w, "bob", "mientras estabas fuera").unwrap();

    // The block drops the queue, taking the handshake with it.
    bob.contact(&mut w, ContactVerb::Block, "alice");
    bob.contact(&mut w, ContactVerb::Remove, "alice");
    alice.contact(&mut w, ContactVerb::Request, "bob");
    bob.contact(&mut w, ContactVerb::Accept, "alice");
    bob.connect(&mut w);

    // Alice still holds the session Bob never learned about.
    alice.send_text(&mut w, "bob", "hola otra vez").unwrap();
    settle(&mut w, &mut [&mut alice, &mut bob]);
    assert!(bob.shows("alice", "hola otra vez"));

    // And the repair has to work in both directions afterwards.
    bob.send_text(&mut w, "alice", "ahora sí te leo").unwrap();
    settle(&mut w, &mut [&mut alice, &mut bob]);
    assert!(alice.shows("bob", "ahora sí te leo"));
}

/// A message waits on the relay for whoever is offline, unreadable there, and
/// leaves with its acknowledgement.
#[test]
fn encrypted_roundtrip_with_offline_delivery() {
    let mut w = World::new();
    let mut alice = Device::new(1);
    alice.sign_up(&mut w, "alice", "Alias de alice");
    let mut bob = Device::new(2);
    bob.sign_up(&mut w, "bob", "Alias de bob");
    alice.contact(&mut w, ContactVerb::Request, "bob");
    bob.contact(&mut w, ContactVerb::Request, "alice");

    let me = alice.me(&w).unwrap();
    let now = w.tick();
    assert_eq!(w.relay.get_profile(&me, "bob", now).unwrap().alias, "Alias de bob");

    alice.send_text(&mut w, "bob", "hola bob, esto es secreto").unwrap();
    assert_eq!(w.relay.messages.len(), 1);
    let envelope = w.relay.messages.rows[0].1.body.clone();
    assert!(!envelope.contains("secreto"), "envelope must not leak plaintext");

    // Bob comes online, gets the backlog, decrypts.
    bob.connect(&mut w);
    settle(&mut w, &mut [&mut alice, &mut bob]);
    assert!(bob.shows("alice", "hola bob, esto es secreto"));
    assert_eq!(w.relay.messages.len(), 0);

    // Bob replies over the session established by the first message.
    assert!(bob.actor.db.has_session("alice", 1));
    bob.send_text(&mut w, "alice", "hola alice, recibido").unwrap();
    alice.connect(&mut w);
    settle(&mut w, &mut [&mut alice, &mut bob]);
    assert!(alice.shows("bob", "hola alice, recibido"));

    // A second message from Alice needs no handshake any more.
    alice.send_text(&mut w, "bob", "segundo mensaje").unwrap();
    let envelope = w.relay.messages.rows[0].1.body.clone();
    assert!(envelope.contains("\"signal\""), "ratchet messages use type signal");
    settle(&mut w, &mut [&mut alice, &mut bob]);
    assert!(bob.shows("alice", "segundo mensaje"));
}
