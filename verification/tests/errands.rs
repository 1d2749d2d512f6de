use hush::api::{ContactEntry, IncomingMessage};
use hush::client::commands::{Call, Command, ContactVerb, Job, Outcome, Reply, Turn};
use hush::client::errand::{
    next_resend, rekey_parcel, Answer, Ask, InStep, Intake, ResendStep, SendFault, Stage, Step,
};
use hush::client::traffic::UnreadableStep;
use hush::client::{Actor, ClientEvent, ClientFault};
use hush::db::{AddressStore, LocalDb, StoredMessage};
use hush::engine::encode_content;

const NOW: i64 = 1_700_000_000_000;

fn actor() -> Actor {
    match LocalDb::open(Vec::new(), None) {
        Ok(opened) => Actor::new(opened.db),
        Err(e) => panic!("{}", e.message()),
    }
}

fn signed_in() -> Actor {
    let mut actor = actor();
    actor.registered("https://s", "alice", "Alicia");
    assert_eq!(actor.verified("TOKEN"), Ok(()));
    actor.set_connected(true);
    actor
}

fn profile(alias: &str, key: &str) -> Answer {
    Answer::Profile { alias: alias.into(), identity_key: key.into() }
}

fn bundle(key: &str) -> Answer {
    Answer::Bundle { text: format!(r#"{{"identity_key":"{key}"}}"#) }
}

#[test]
fn a_message_goes_out_step_by_step() {
    let mut actor = signed_in();
    let step = actor.start_errand("bob", "text", "hola", None);
    let Step::Go { errand, ask } = step else { panic!("not sent") };
    assert!(matches!(&ask, Ask::Profile { of } if of == "bob"));
    let Step::Go { errand, ask } = actor.advance(errand, profile("Roberto", "AQ=="), NOW) else {
        panic!("no bundle asked for")
    };
    assert!(matches!(&ask, Ask::Bundle { of } if of == "bob"));
    let Step::Go { errand, ask } = actor.advance(errand, bundle("AQ=="), NOW) else {
        panic!("no session asked for")
    };
    assert_eq!(errand.stage, Stage::Session);
    assert!(matches!(&ask, Ask::Establish { with, bundle } if with == "bob" && bundle.contains("AQ==")));
    let Step::Go { errand, ask } = actor.advance(errand, Answer::Done, NOW) else {
        panic!("nothing encrypted")
    };
    assert!(matches!(&ask, Ask::Encrypt { payload, .. } if *payload == encode_content("text", "hola")));
    let Step::Go { errand, ask } = actor.advance(errand, Answer::Envelope { text: "E".into() }, NOW)
    else {
        panic!("nothing delivered")
    };
    assert!(matches!(&ask, Ask::Deliver { envelope, .. } if envelope == "E"));
    let Step::Sent { stored } = actor.advance(errand, Answer::Id { id: "7".into() }, NOW) else {
        panic!("nothing stored")
    };
    assert_eq!((stored.id.as_str(), stored.text.as_str()), ("7", "hola"));
    assert_eq!(actor.db.history("bob")[0].text, "hola");
    assert_eq!(actor.db.contacts()[0].alias, "Roberto");
}

#[test]
fn a_message_stops_at_a_changed_key() {
    let mut actor = signed_in();
    assert!(actor.db.save_identity("bob:1", &vec![1]).is_ok());
    assert!(actor.db.store_record(AddressStore::Sessions, "bob:1", &vec![9]).is_ok());
    let Step::Go { errand, .. } = actor.start_errand("bob", "text", "x", None) else {
        panic!("not sent")
    };
    let Step::Go { errand, .. } = actor.advance(errand, profile("B", "AQ=="), NOW) else {
        panic!("stopped early")
    };
    let step = actor.advance(errand, bundle("Ag=="), NOW);
    assert!(matches!(
        step,
        Step::Stopped {
            fault: SendFault::Client(ClientFault::IdentityChanged),
            event: Some(ClientEvent::IdentityChanged { .. })
        }
    ));
    assert!(matches!(
        actor.start_errand("bob", "text", "x", None),
        Step::Stopped { fault: SendFault::Client(ClientFault::IdentityChanged), event: None }
    ));
    // With the pinned key it would have been encrypted in the session there is.
    actor.accept_identity("bob");
    assert!(actor.db.save_identity("bob:1", &vec![2]).is_ok());
    assert!(actor.db.store_record(AddressStore::Sessions, "bob:1", &vec![9]).is_ok());
    let Step::Go { mut errand, .. } = actor.start_errand("bob", "text", "x", None) else {
        panic!("not sent")
    };
    errand.stage = Stage::Bundle;
    assert!(matches!(
        actor.advance(errand, bundle("Ag=="), NOW),
        Step::Go { ask: Ask::Encrypt { .. }, .. }
    ));
}

#[test]
fn an_answer_that_does_not_fit_stops_a_message() {
    let mut actor = signed_in();
    let Step::Go { errand, .. } = actor.start_errand("bob", "text", "x", None) else {
        panic!("not sent")
    };
    let step = actor.advance(errand, Answer::Failed, NOW);
    assert!(matches!(step, Step::Stopped { fault: SendFault::Outside, event: None }));
}

#[test]
fn a_message_sent_again_moves_to_its_new_identifier() {
    let mut actor = signed_in();
    assert!(actor.message_sent("1", "bob", "text", "hola", NOW).is_ok());
    let Step::Go { mut errand, .. } = actor.start_errand("bob", "text", "hola", Some("1".into()))
    else {
        panic!("not sent")
    };
    errand.stage = Stage::Id;
    let step = actor.advance(errand, Answer::Id { id: "2".into() }, NOW);
    assert!(matches!(
        step,
        Step::Resent { event: Some(ClientEvent::MessageResent { .. }) }
    ));
    assert_eq!(actor.db.history("bob").len(), 1);
    assert_eq!(actor.db.history("bob")[0].id, "2");
}

fn incoming(id: &str) -> IncomingMessage {
    IncomingMessage {
        id: id.into(),
        sender: "bob".into(),
        sender_device: 1,
        body: "E".into(),
        created_at: 5,
    }
}

#[test]
fn a_message_comes_in_step_by_step() {
    let mut actor = signed_in();
    let InStep::Go { reception, ask, .. } = actor.start_reception(incoming("1")) else {
        panic!("not taken in")
    };
    assert!(matches!(&ask, Ask::Decrypt { envelope, .. } if envelope == "E"));
    let plain = Answer::Plain { bytes: encode_content("text", "hola") };
    let InStep::Go { reception, ask, .. } = actor.advance_reception(reception, plain, NOW) else {
        panic!("not acknowledged")
    };
    assert!(matches!(&ask, Ask::Ack { id } if id == "1"));
    let InStep::Go { reception, ask, received } =
        actor.advance_reception(reception, Answer::Failed, NOW)
    else {
        panic!("the sender is unknown")
    };
    assert!(matches!(received.unwrap().event, Some(ClientEvent::Message(m)) if m.text == "hola"));
    assert!(matches!(&ask, Ask::Profile { of } if of == "bob"));
    assert!(matches!(
        actor.advance_reception(reception, Answer::Failed, NOW),
        InStep::Taken { received: None }
    ));
    assert_eq!(actor.db.contacts()[0].alias, "bob");
    // Known by now.
    let InStep::Go { mut reception, .. } = actor.start_reception(incoming("2")) else {
        panic!("not taken in")
    };
    reception.stage = Intake::Ack { plain: encode_content("rekey", "") };
    let InStep::Taken { received: Some(received) } =
        actor.advance_reception(reception, Answer::Done, NOW)
    else {
        panic!("not taken in")
    };
    assert_eq!(received.resend_to, Some("bob".to_string()));
}

#[test]
fn an_unreadable_message_is_dropped_and_judged() {
    let mut actor = signed_in();
    assert!(actor.db.save_identity("bob:1", &vec![1]).is_ok());
    let InStep::Go { reception, .. } = actor.start_reception(incoming("1")) else {
        panic!("not taken in")
    };
    let InStep::Go { reception, ask, .. } =
        actor.advance_reception(reception, Answer::Failed, NOW)
    else {
        panic!("not dropped")
    };
    assert!(matches!(&ask, Ask::Discard { id } if id == "1"));
    let InStep::Go { reception, ask, .. } = actor.advance_reception(reception, Answer::Done, NOW)
    else {
        panic!("not judged")
    };
    assert!(matches!(&ask, Ask::Profile { of } if of == "bob"));
    let step = actor.advance_reception(reception, profile("B", "Ag=="), NOW);
    assert!(matches!(
        step,
        InStep::Unreadable { step: UnreadableStep::Disputed { event: Some(_) } }
    ));
    // Nothing of theirs is read until that is settled.
    assert!(matches!(actor.start_reception(incoming("2")), InStep::Drop { id } if id == "2"));
    actor.logout();
    assert!(matches!(actor.start_reception(incoming("3")), InStep::Nothing));
}

fn text(text: &str) -> Outcome {
    Outcome::Text { text: Some(text.into()) }
}

fn failed(turn: Turn) -> String {
    match turn {
        Turn::Answer { reply: Reply::Failed { code } } => code,
        _ => panic!("not refused"),
    }
}

#[test]
fn an_account_is_made_in_steps() {
    let mut actor = actor();
    assert_eq!(failed(actor.begin(Command::Verify { code: "1".into() }, NOW)), "no pending registration");
    let turn = actor.begin(
        Command::Register {
            server: "https://s//".into(),
            username: "Alice".into(),
            alias: "Alicia".into(),
            email: "a@b".into(),
            password: "supersecreta".into(),
        },
        NOW,
    );
    let Turn::Call { job, call: Call::Register { server, username, .. } } = turn else {
        panic!("no call")
    };
    assert_eq!((server.as_str(), username.as_str()), ("https://s", "alice"));
    let turn = actor.finish(job, text("123456"));
    assert!(matches!(turn, Turn::Answer { reply: Reply::Code { code: Some(c) } } if c == "123456"));
    let Turn::Call { job, call } = actor.begin(Command::Verify { code: "123456".into() }, NOW) else {
        panic!("no call")
    };
    assert!(matches!(call, Call::Verify { username, .. } if username == "alice"));
    let Turn::Call { job, call: Call::PublishKeys } = actor.finish(job, text("TOKEN")) else {
        panic!("no keys published")
    };
    assert!(matches!(actor.finish(job, Outcome::Done), Turn::Answer { reply: Reply::Nothing }));
    assert!(actor.session);
    let Turn::Call { job, call: Call::Open { token, .. } } = actor.begin(Command::Connect, NOW) else {
        panic!("no stream")
    };
    assert_eq!(token, "TOKEN");
    let refused = actor.finish(job, Outcome::Failed { code: "connection_failed".into() });
    assert_eq!(failed(refused), "connection_failed");
    assert!(!actor.connected);
}

#[test]
fn signing_in_publishes_keys_on_a_new_device_only() {
    let mut actor = signed_in();
    let login = |server: &str, username: &str| Command::Login {
        server: server.into(),
        username: username.into(),
        password: "p".into(),
    };
    let Turn::Call { job, .. } = actor.begin(login("https://s", "ALICE"), NOW) else {
        panic!("no call")
    };
    let Turn::Call { job, call: Call::FetchProfile { name } } = actor.finish(job, text("T2")) else {
        panic!("no profile")
    };
    assert_eq!(name, "alice");
    let turn = actor.finish(job, text("Ali"));
    assert!(matches!(turn, Turn::Answer { reply: Reply::Profile { info: Some(i) } } if i.alias == "Ali"));

    let Turn::Call { job, .. } = actor.begin(login("https://s", "bob"), NOW) else {
        panic!("no call")
    };
    assert!(actor.db.profile().is_none(), "another account finds a clean slate");
    let Turn::Call { job, call: Call::PublishKeys } = actor.finish(job, text("T3")) else {
        panic!("no keys")
    };
    assert_eq!(failed(actor.finish(job, text("odd"))), "request_failed");
}

fn entry(username: &str, state: &str) -> ContactEntry {
    ContactEntry {
        username: username.into(),
        alias: username.into(),
        state: state.into(),
        status: "online".into(),
        last_seen: None,
        avatar: None,
    }
}

#[test]
fn a_picture_set_before_the_contact_existed_still_reaches_them() {
    let mut actor = signed_in();
    let picture = "data:image/png;base64,AA";
    let turn = actor.begin(Command::SetAvatar { avatar: Some(picture.into()) }, NOW);
    assert!(matches!(turn, Turn::Send { parcels, .. } if parcels.is_empty()));
    let ask = Command::Contact { verb: ContactVerb::Request, username: "Bob".into() };
    let Turn::Call { job, call: Call::Contact { name, .. } } = actor.begin(ask, NOW) else {
        panic!("no call")
    };
    assert_eq!(name, "bob");
    let Turn::Call { job, call: Call::ListContacts } = actor.finish(job, text("accepted")) else {
        panic!("no list")
    };
    let list = vec![entry("bob", "accepted"), entry("carol", "incoming")];
    let Turn::Send { parcels, reply: Reply::State { state } } =
        actor.finish(job, Outcome::Entries { list })
    else {
        panic!("nothing shared")
    };
    assert_eq!(state, "accepted");
    assert_eq!(parcels.len(), 1);
    assert_eq!((parcels[0].to.as_str(), parcels[0].content.as_str()), ("bob", picture));
    // The list is only shared with those who are new.
    let Turn::Call { job, .. } = actor.begin(Command::Contacts, NOW) else { panic!("no call") };
    let list = vec![entry("bob", "accepted")];
    let turn = actor.finish(job, Outcome::Entries { list });
    assert!(matches!(turn, Turn::Send { parcels, .. } if parcels.is_empty()));
    let Turn::Call { job, .. } = actor.begin(Command::Contacts, NOW) else { panic!("no call") };
    let turn = actor.finish(job, Outcome::Failed { code: "connection_failed".into() });
    assert!(matches!(turn, Turn::Answer { reply: Reply::Contacts { list } } if list[0].status == "offline"));
    let (work, event) = actor.contacts_changed();
    assert!(matches!(work, Some((Job::Refreshing, Call::ListContacts))));
    assert!(matches!(event, Some(ClientEvent::ContactsChanged)));
}

#[test]
fn commands_need_a_session() {
    let mut actor = actor();
    let update = Command::UpdateMe { alias: None, status: None };
    assert_eq!(failed(actor.begin(update, NOW)), "no_session");
    assert_eq!(failed(actor.begin(Command::MarkRead { contact: "bob".into() }, NOW)), "no_session");
    let block = Command::Contact { verb: ContactVerb::Block, username: "bob".into() };
    assert_eq!(failed(actor.begin(block, NOW)), "no_session");
    assert_eq!(failed(actor.begin(Command::Connect, NOW)), "no account on this device");
    assert!(matches!(actor.begin(Command::Logout, NOW), Turn::Answer { reply: Reply::Nothing }));
    assert!(matches!(
        actor.begin(Command::LoadProfile, NOW),
        Turn::Answer { reply: Reply::Profile { info: None } }
    ));
}

#[test]
fn conversations_are_withdrawn_before_they_are_deleted() {
    let mut actor = signed_in();
    for (id, mine) in [("1", true), ("2", false), ("3", true)] {
        let stored = StoredMessage {
            id: id.into(),
            contact: "bob".into(),
            mine,
            kind: "text".into(),
            text: id.into(),
            state: "sent".into(),
            delivered_at: None,
            read_at: None,
            created_at: 1,
        };
        assert!(actor.db.add_message(&stored).is_ok());
    }
    let command = Command::DeleteConversation { contact: "BOB".into(), for_everyone: true };
    let Turn::Withdraw { parcels, contact } = actor.begin(command, NOW) else {
        panic!("nothing withdrawn")
    };
    let ids: Vec<&str> = parcels.iter().map(|p| p.content.as_str()).collect();
    assert_eq!(ids, ["1", "3"]);
    assert!(parcels.iter().all(|p| p.to == "bob" && p.kind == "delete"));
    assert_eq!(actor.db.history("bob").len(), 3);
    assert!(matches!(actor.withdrawn(&contact), Reply::Count { n: 3 }));
    assert!(actor.db.history("bob").is_empty());

    let delete = Command::DeleteMessage { id: "1".into(), for_everyone: false };
    assert_eq!(failed(actor.begin(delete, NOW)), "message_not_found");
    let history = actor.begin(Command::History { contact: "bob".into() }, NOW);
    assert!(matches!(history, Turn::Answer { reply: Reply::Messages { list } } if list.is_empty()));
    let accept = actor.begin(Command::AcceptIdentity { contact: "Bob".into() }, NOW);
    assert!(matches!(accept, Turn::Send { parcels, .. } if parcels[0].kind == "rekey"));
    let export = actor.begin(Command::ExportConversations { password: "corta".into() }, NOW);
    assert_eq!(failed(export), "export_password_too_short");
    let import =
        Command::ImportConversations { bytes: b"no soy un export".to_vec(), password: "x".into() };
    assert_eq!(failed(actor.begin(import, NOW)), "import_not_an_export");
}

#[test]
fn a_logout_works_without_the_server() {
    let mut actor = signed_in();
    let Turn::Call { job, call: Call::Logout } = actor.begin(Command::Logout, NOW) else {
        panic!("no call")
    };
    let turn = actor.finish(job, Outcome::Failed { code: "connection_failed".into() });
    assert!(matches!(turn, Turn::Answer { reply: Reply::Nothing }));
    assert!(!actor.session && !actor.connected);
    let Turn::Call { job, .. } = actor.begin(
        Command::ForgotPassword { server: "https://s/".into(), username: "A".into() },
        NOW,
    ) else {
        panic!("no call")
    };
    assert!(matches!(job, Job::AskingForCode));
    assert!(matches!(actor.finish(job, text("c")), Turn::Answer { reply: Reply::Code { .. } }));
}

#[test]
fn a_profile_change_is_kept_once_the_server_took_it() {
    let mut actor = signed_in();
    let command = Command::UpdateMe { alias: Some("Ali".into()), status: Some("busy".into()) };
    let Turn::Call { job, .. } = actor.begin(command, NOW) else { panic!("no call") };
    assert_eq!(actor.load_profile().unwrap().alias, "Alicia");
    assert!(matches!(actor.finish(job, Outcome::Done), Turn::Answer { reply: Reply::Nothing }));
    let info = actor.load_profile().unwrap();
    assert_eq!((info.alias.as_str(), info.status.as_str()), ("Ali", "busy"));
}

#[test]
fn sending_again_stops_at_the_first_failure() {
    let mut actor = signed_in();
    for (id, text, at) in [("1", "uno", NOW), ("2", "dos", NOW + 1), ("3", "tres", NOW + 2)] {
        assert!(actor.message_sent(id, "bob", "text", text, at).is_ok());
    }
    let ResendStep::Send { resend, parcel, of } = next_resend(actor.start_resend("bob"), true)
    else {
        panic!("nothing to send")
    };
    assert_eq!((parcel.to.as_str(), parcel.content.as_str(), of.as_str()), ("bob", "uno", "1"));
    let ResendStep::Send { resend, of, .. } = next_resend(resend, true) else {
        panic!("stopped early")
    };
    assert_eq!((of.as_str(), resend.rest.len()), ("2", 1));
    assert!(matches!(next_resend(resend, false), ResendStep::Over));
    assert!(matches!(next_resend(actor.start_resend("carol"), true), ResendStep::Over));
    let rekey = rekey_parcel("bob");
    assert_eq!((rekey.to.as_str(), rekey.kind.as_str(), rekey.content.as_str()), ("bob", "rekey", ""));
}
