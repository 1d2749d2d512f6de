use hush::api::{
    check, read_archive_list, read_contact_list, read_event, read_presence_list, read_profile,
    reply_text, ContactEntry, EventBuffer, IncomingMessage, ServerEvent,
};
use hush::client::traffic::{SendStep, UnreadableStep};
use hush::client::{check_image, is_control, is_picture, Actor, ClientEvent, ClientFault};
use hush::db::meta::Profile;
use hush::db::records::{addr_key, device_byte, fresh_registration_id, IdentityChange};
use hush::db::{AddressStore, DbWrite, KeyStore, LocalDb, StoredMessage};
use hush::engine::{
    decode_content, encode_content, fingerprint, read_bundle, read_envelope, upload_body,
    write_envelope, write_key, write_signed_key, write_static_bundle, BundleFault, BundlePart, EnvelopeFault,
    EnvelopeKind, PublicKey, SignedKey,
};
use hush::keystore::{DeviceKey, StorageError};

const NOW: i64 = 1_700_000_000_000;

fn sealed_db() -> LocalDb {
    match LocalDb::open(Vec::new(), None) {
        Ok(opened) => opened.db,
        Err(e) => panic!("{}", e.message()),
    }
}

fn message(id: &str, contact: &str, mine: bool, at: i64) -> StoredMessage {
    StoredMessage {
        id: id.into(),
        contact: contact.into(),
        mine,
        kind: "text".into(),
        text: format!("text of {id}"),
        state: if mine { "sent".into() } else { "delivered".into() },
        delivered_at: None,
        read_at: None,
        created_at: at,
    }
}

fn signed_in() -> Actor {
    let mut actor = Actor::new(sealed_db());
    actor.begin_register();
    actor.registered("https://hush.example/", "alice", "Alicia");
    assert_eq!(actor.verified("TOKEN"), Ok(()));
    actor.set_connected(true);
    actor
}

#[test]
fn everything_is_stored_sealed() {
    let mut db = sealed_db();
    assert_eq!(db.meta_set("token", "SECRETO"), Ok(()));
    assert_eq!(db.add_message(&message("1", "bob", true, 5)), Ok(()));
    assert_eq!(db.upsert_contact("bob", "Roberto", "accepted"), Ok(()));
    assert_eq!(db.set_contact_avatar("bob", Some("data:image/png;base64,AA")), Ok(()));
    assert_eq!(db.store_record(AddressStore::Sessions, "bob:1", &vec![1, 2, 3]), Ok(()));
    assert_eq!(db.save_key(KeyStore::Prekeys, 7, &vec![9]), Ok(()));
    for secret in ["SECRETO", "text of 1", "Roberto", "data:image"] {
        assert!(!db.meta.rows.iter().any(|r| r.1.contains(secret)));
        assert!(!db.messages.rows.iter().any(|r| r.1.text.contains(secret)));
        assert!(!db.contacts.rows.iter().any(|r| r.1.alias.contains(secret)));
        assert!(!db.avatars.rows.iter().any(|r| r.1.contains(secret)));
    }
    assert_eq!(db.meta_get("token").unwrap(), "SECRETO");
    assert_eq!(db.meta_get("crypto").unwrap(), "v1");
    assert_eq!(db.history("bob")[0].text, "text of 1");
    assert_eq!(db.contacts()[0].alias, "Roberto");
    assert_eq!(db.contact_avatar("bob").unwrap(), "data:image/png;base64,AA");
    assert_eq!(db.load_record(AddressStore::Sessions, "bob:1"), Ok(Some(vec![1, 2, 3])));
    assert_eq!(db.load_key(KeyStore::Prekeys, 7), Ok(Some(vec![9])));
    assert_eq!(db.load_key(KeyStore::Prekeys, 8), Ok(None));
}

#[test]
fn a_plain_database_is_sealed_when_it_is_opened() {
    let old = vec![
        DbWrite::PutMeta { key: "username".into(), value: "alice".into() },
        DbWrite::PutMessage { row: message("1", "bob", true, 5) },
        DbWrite::PutMessage {
            row: StoredMessage { kind: "delete".into(), ..message("2", "bob", true, 6) },
        },
        DbWrite::PutRecord {
            store: AddressStore::Identities,
            address: "bob:1".into(),
            record: "AQID".into(),
        },
    ];
    let mut opened = match LocalDb::open(old, None) {
        Ok(opened) => opened,
        Err(e) => panic!("{}", e.message()),
    };
    let key = opened.new_key.unwrap();
    let all = opened.db.all_messages();
    assert_eq!(all.len(), 1, "the old instruction to delete is gone");
    assert_eq!(all[0].text, "text of 1");
    assert_eq!(opened.db.meta_get("username").unwrap(), "alice");
    assert_eq!(opened.db.get_identity("bob:1"), Ok(Some(vec![1, 2, 3])));
    assert_ne!(opened.db.messages.rows[0].1.text, "text of 1");

    // What was written brings the same database back, with the key that was made.
    let mut rows = vec![DbWrite::PutMessage { row: message("1", "bob", true, 5) }];
    rows.append(&mut opened.db.take_writes());
    let again = LocalDb::open(rows, Some(key.0.to_vec()));
    match again {
        Ok(again) => {
            assert!(again.new_key.is_none());
            assert_eq!(again.db.history("bob")[0].text, "text of 1");
        }
        Err(e) => panic!("{}", e.message()),
    }
}

#[test]
fn a_sealed_database_needs_its_key() {
    let marker = || vec![DbWrite::PutMeta { key: "crypto".into(), value: "v1".into() }];
    assert!(matches!(LocalDb::open(marker(), None), Err(StorageError::KeyMissing)));
    assert!(matches!(LocalDb::open(marker(), Some(vec![1; 31])), Err(StorageError::CorruptKey)));
    assert!(LocalDb::open(marker(), Some(vec![1; 32])).is_ok());
    // A record that is not base64 cannot be sealed, and nothing is.
    let odd = vec![DbWrite::PutKey { store: KeyStore::Prekeys, id: 1, record: "?".into() }];
    assert!(LocalDb::open(odd, None).is_err());
}

#[test]
fn wiping_keeps_the_marker() {
    let mut db = sealed_db();
    assert_eq!(db.meta_set("status", "busy"), Ok(()));
    db.clear_all();
    assert_eq!(db.meta_get("status"), None);
    assert_eq!(db.meta_get("crypto").unwrap(), "v1");
}

#[test]
fn states_only_move_forward() {
    let mut db = sealed_db();
    assert_eq!(db.add_message(&message("1", "bob", true, 5)), Ok(()));
    db.set_message_state("1", "read", Some(10));
    let m = &db.history("bob")[0];
    assert_eq!((m.state.as_str(), m.delivered_at, m.read_at), ("read", Some(10), Some(10)));
    db.set_message_state("1", "delivered", Some(20));
    let m = &db.history("bob")[0];
    assert_eq!((m.state.as_str(), m.delivered_at, m.read_at), ("read", Some(10), Some(10)));
    db.set_message_state("missing", "read", Some(1));
    assert_eq!(db.all_messages().len(), 1);
    // A message that is there already is left alone.
    let again = StoredMessage { text: "other".into(), ..message("1", "bob", true, 5) };
    assert_eq!(db.add_message(&again), Ok(()));
    assert_eq!(db.history("bob")[0].text, "text of 1");
}

#[test]
fn conversations_are_listed_in_order_of_time() {
    let mut db = sealed_db();
    for (id, at) in [("c", 3), ("a", 1), ("b", 2)] {
        assert_eq!(db.add_message(&message(id, "bob", true, at)), Ok(()));
    }
    assert_eq!(db.add_message(&message("d", "carol", false, 0)), Ok(()));
    let ids: Vec<String> = db.history("bob").iter().map(|m| m.id.clone()).collect();
    assert_eq!(ids, ["a", "b", "c"]);
    assert_eq!(db.all_messages()[0].id, "d");
    db.set_message_state("b", "delivered", None);
    let waiting: Vec<String> = db.undelivered_to("bob").iter().map(|m| m.id.clone()).collect();
    assert_eq!(waiting, ["a", "c"]);
    assert_eq!(db.unread_from("carol"), ["d"]);
    assert_eq!(db.message_peer("d"), Some(("carol".to_string(), false)));
    assert_eq!(db.reassign_message_id("a", "z"), Ok(()));
    assert_eq!(db.reassign_message_id("z", "b"), Err(StorageError::Duplicate));
    assert_eq!(db.reassign_message_id("missing", "b"), Ok(()));
    assert_eq!(db.history("bob")[0].id, "z");
}

#[test]
fn profiles_and_devices_are_kept() {
    let mut db = LocalDb::open_in_memory();
    assert!(db.profile().is_none());
    let profile = Profile {
        username: "alice".into(),
        alias: "Alicia".into(),
        server: "https://s".into(),
        token: "T".into(),
    };
    assert_eq!(db.save_profile(&profile), Ok(()));
    assert_eq!(db.profile().unwrap().alias, "Alicia");
    db.forget_token();
    assert!(db.profile().is_none());
    assert_eq!(db.account(), Some(("alice".to_string(), "https://s".to_string())));
    assert_eq!(db.device_id(), None);
    assert_eq!(db.set_device_id(-4), Ok(()));
    assert_eq!(db.device_id(), Some(-4));
    assert_eq!(db.next_id(KeyStore::KyberPrekeys), 1);
    assert_eq!(db.save_key(KeyStore::KyberPrekeys, 41, &vec![1]), Ok(()));
    assert_eq!(db.next_id(KeyStore::KyberPrekeys), 42);
    db.remove_key(KeyStore::KyberPrekeys, 41);
    assert_eq!(db.load_key(KeyStore::KyberPrekeys, 41), Ok(None));
}

#[test]
fn the_first_identity_is_pinned() {
    let mut db = sealed_db();
    let address = addr_key("bob", 1);
    assert_eq!(address, "bob:1");
    assert_eq!(db.is_trusted_identity(&address, &vec![1]), Ok(true));
    assert_eq!(db.save_identity(&address, &vec![1]), Ok(IdentityChange::NewOrUnchanged));
    assert_eq!(db.save_identity(&address, &vec![1]), Ok(IdentityChange::NewOrUnchanged));
    assert_eq!(db.is_trusted_identity(&address, &vec![2]), Ok(false));
    assert_eq!(db.store_record(AddressStore::Sessions, &address, &vec![5]), Ok(()));
    db.reset_session("bob", 1);
    assert!(!db.has_session("bob", 1));
    assert_eq!(db.known_identity_b64("bob", 1), Ok(Some("AQ==".to_string())));
    assert_eq!(db.save_identity(&address, &vec![2]), Ok(IdentityChange::ReplacedExisting));
    db.forget_identity("bob", 1);
    assert_eq!(db.known_identity_b64("bob", 1), Ok(None));
    assert!(db.mark_kyber_used(1, 2, &vec![3]));
    assert!(!db.mark_kyber_used(1, 2, &vec![3]));
    assert!(db.mark_kyber_used(1, 2, &vec![4]));
    assert_eq!((device_byte(0), device_byte(7), device_byte(256)), (1, 7, 1));
}

#[test]
fn the_own_identity_is_made_once() {
    let mut db = sealed_db();
    assert!(!db.has_own_identity());
    assert_eq!(db.ensure_identity(&vec![1, 2], 77), Ok(()));
    assert_eq!(db.ensure_identity(&vec![3, 4], 88), Ok(()));
    assert_eq!(db.load_identity(), Some(vec![1, 2]));
    assert_eq!(db.registration_id(), Some(77));
    let id = fresh_registration_id();
    assert!((1..16380).contains(&id));
}

#[test]
fn contents_and_envelopes_read_back() {
    let payload = encode_content("text", "hola \"bob\"");
    assert_eq!(String::from_utf8(payload.clone()).unwrap(), r#"{"content":"hola \"bob\"","kind":"text"}"#);
    assert_eq!(decode_content(&payload), ("text".to_string(), "hola \"bob\"".to_string()));
    // Plain payloads from older clients are treated as text.
    assert_eq!(decode_content(&b"hola".to_vec()), ("text".to_string(), "hola".to_string()));
    assert_eq!(decode_content(&b"{\"kind\":1}".to_vec()).1, "{\"kind\":1}");
    assert_eq!(decode_content(&vec![0xff]).1, "\u{fffd}");

    let envelope = write_envelope(EnvelopeKind::PreKey, &vec![1, 2, 3]);
    assert_eq!(envelope, r#"{"c":"AQID","t":"prekey"}"#);
    assert!(matches!(read_envelope(&envelope), Ok((EnvelopeKind::PreKey, c)) if c == [1, 2, 3]));
    assert_eq!(read_envelope("{"), Err(EnvelopeFault::BadEnvelope));
    assert_eq!(read_envelope(r#"{"c":"AQID"}"#), Err(EnvelopeFault::BadEnvelope));
    assert_eq!(read_envelope(r#"{"c":"?","t":"signal"}"#), Err(EnvelopeFault::BadBase64));
    assert_eq!(read_envelope(r#"{"c":"AQID","t":"x"}"#), Err(EnvelopeFault::UnknownKind));
}

#[test]
fn a_fingerprint_can_be_read_out() {
    // SHA-256 of "abc" starts with BA7816BF 8F01CFEA 4141.
    assert_eq!(fingerprint("abc"), "BA78 16BF 8F01 CFEA 4141");
}

fn signed(id: u32) -> SignedKey {
    SignedKey { id, public: vec![id as u8], signature: vec![9, id as u8] }
}

#[test]
fn a_bundle_is_read_as_it_was_published() {
    let stat = write_static_bundle(&signed(3), &signed(4));
    let key = write_key(&PublicKey { id: 5, public: vec![1] });
    assert_eq!(key, r#"{"id":5,"public":"AQ=="}"#);
    let quoted = serde_json::to_string(&key).unwrap();
    let text = format!(
        r#"{{"registration_id":4294967298,"identity_key":"AQID","bundle_static":{stat},"one_time_prekey":{quoted},"kyber_prekey":null}}"#
    );
    let bundle = match read_bundle(&text) {
        Ok(bundle) => bundle,
        Err(e) => panic!("{e:?}"),
    };
    assert_eq!(bundle.registration_id, 2, "the low 32 bits count");
    assert_eq!(bundle.identity_key, [1, 2, 3]);
    let one_time = bundle.one_time.unwrap();
    assert_eq!((one_time.id, one_time.public), (5, vec![1]));
    assert_eq!((bundle.signed.id, bundle.signed.signature), (3, vec![9, 3]));
    assert_eq!(bundle.kyber.id, 4, "the last-resort key");

    let kyber = serde_json::to_string(&write_signed_key(&signed(8))).unwrap();
    let text = format!(
        r#"{{"registration_id":1,"identity_key":"AQID","bundle_static":{stat},"kyber_prekey":{kyber}}}"#
    );
    let bundle = match read_bundle(&text) {
        Ok(bundle) => bundle,
        Err(e) => panic!("{e:?}"),
    };
    assert!(bundle.one_time.is_none());
    assert_eq!(bundle.kyber.id, 8, "a one-time key comes first");

    let fault = |text: &str| read_bundle(text).err().unwrap();
    assert_eq!(fault("{"), BundleFault::NotJson);
    assert_eq!(fault("{}"), BundleFault::Missing(BundlePart::RegistrationId));
    assert_eq!(
        fault(r#"{"registration_id":-1}"#),
        BundleFault::Missing(BundlePart::RegistrationId)
    );
    assert_eq!(fault(r#"{"registration_id":1}"#), BundleFault::Missing(BundlePart::IdentityKey));
    assert_eq!(
        fault(r#"{"registration_id":1,"identity_key":"?"}"#),
        BundleFault::BadBase64(BundlePart::IdentityKey)
    );
    assert_eq!(
        fault(r#"{"registration_id":1,"identity_key":"","one_time_prekey":"{"}"#),
        BundleFault::NotJson
    );
    assert_eq!(
        fault(r#"{"registration_id":1,"identity_key":""}"#),
        BundleFault::Missing(BundlePart::SignedId)
    );
}

#[test]
fn prekeys_go_on_behind_the_highest() {
    let mut db = sealed_db();
    assert_eq!(db.save_key(KeyStore::Prekeys, 20, &vec![1]), Ok(()));
    let plan = db.plan_prekeys(3).unwrap();
    assert_eq!(plan.signed, 1);
    assert_eq!(plan.kyber_last_resort, 1);
    assert_eq!(plan.one_time, [21, 22, 23]);
    assert_eq!(plan.kyber, [2, 3, 4]);
    assert_eq!(db.save_key(KeyStore::Prekeys, u32::MAX, &vec![1]), Ok(()));
    assert!(db.plan_prekeys(1).is_none());
}

#[test]
fn the_stream_is_read_frame_by_frame() {
    let mut buffer = EventBuffer::new();
    assert!(buffer.feed(": keep-alive\n").is_empty());
    let events = buffer.feed("\nevent: contacts\ndata: {}\n\nevent: mess");
    assert_eq!(events.len(), 1);
    assert!(matches!(events[0], ServerEvent::ContactsChanged));
    let events = buffer.feed(
        "age\ndata: {\"id\":\"1\",\"sender\":\"bob\",\"body\":\"B\",\"created_at\":5}\n\nevent: receipt\ndata: {\"id\":\"2\",\"state\":\"read\",\"at\":7}\n\nevent: odd\ndata: {}\n\n",
    );
    assert_eq!(events.len(), 2);
    assert!(matches!(
        &events[0],
        ServerEvent::Message(m) if m.id == "1" && m.sender_device == 1 && m.created_at == 5
    ));
    assert!(matches!(
        &events[1],
        ServerEvent::Receipt { id, state, at: 7 } if id == "2" && state == "read"
    ));
    assert_eq!(buffer.text, "");
    assert!(read_event("data: {\"id\":\"1\"}").is_none());
    // A frame without a name is a message; a carriage return ends a line too.
    let named = read_event("x: y\r\ndata: {\"id\":\"1\",\"sender\":\"b\",\"sender_device\":3,\"body\":\"\",\"created_at\":0}");
    assert!(matches!(named, Some(ServerEvent::Message(m)) if m.sender_device == 3));
}

#[test]
fn answers_are_read() {
    assert_eq!(check(204, ""), None);
    assert_eq!(check(500, r#"{"code":"x"}"#), Some("internal_error".to_string()));
    assert_eq!(check(404, r#"{"code":"user_not_found"}"#), Some("user_not_found".to_string()));
    assert_eq!(check(404, "<html>"), Some("request_failed".to_string()));
    assert_eq!(reply_text(r#"{"token":"T"}"#, "token"), Some("T".to_string()));
    assert_eq!(reply_text(r#"{"token":1}"#, "token"), None);
    let profile = read_profile(r#"{"alias":"Bob"}"#);
    assert_eq!((profile.alias.as_str(), profile.status.as_str()), ("Bob", "offline"));
    let list = read_contact_list(r#"{"contacts":[{"username":"bob","last_seen":4},7]}"#);
    assert_eq!((list[0].username.as_str(), list[0].state.as_str()), ("bob", "accepted"));
    assert_eq!(list[0].last_seen, Some(4));
    assert_eq!(list[1].username, "");
    assert!(read_contact_list("[]").is_empty());
}

fn incoming(id: &str, sender: &str) -> IncomingMessage {
    IncomingMessage {
        id: id.into(),
        sender: sender.into(),
        sender_device: 1,
        body: String::new(),
        created_at: 50,
    }
}

#[test]
fn a_received_message_is_stored_and_shown() {
    let mut actor = signed_in();
    let received = actor.receive(&incoming("1", "bob"), &encode_content("text", "hola"), NOW);
    assert!(received.unknown_sender);
    assert!(matches!(received.event, Some(ClientEvent::Message(m)) if m.text == "hola"));
    let stored = &actor.db.history("bob")[0];
    assert_eq!((stored.state.as_str(), stored.delivered_at, stored.mine), ("delivered", Some(NOW), false));
    actor.learn_contact("bob", "Roberto");
    let again = actor.receive(&incoming("2", "bob"), &encode_content("text", "x"), NOW);
    assert!(!again.unknown_sender);
    assert_eq!(actor.mark_read("bob", NOW + 1).ok().unwrap().len(), 2);
    assert_eq!(actor.db.history("bob")[0].read_at, Some(NOW + 1));

    // Instructions show up nowhere.
    let rekey = actor.receive(&incoming("3", "bob"), &encode_content("rekey", ""), NOW);
    assert_eq!(rekey.resend_to, Some("bob".to_string()));
    let delete = actor.receive(&incoming("4", "bob"), &encode_content("delete", "1"), NOW);
    assert!(matches!(delete.event, Some(ClientEvent::MessageDeleted { id }) if id == "1"));
    assert_eq!(actor.db.history("bob").len(), 1);
}

#[test]
fn pictures_from_contacts_are_inline_or_ignored() {
    let mut actor = signed_in();
    let picture = "data:image/png;base64,AAAA";
    let set = actor.receive(&incoming("1", "bob"), &encode_content("avatar", picture), NOW);
    assert!(matches!(set.event, Some(ClientEvent::ContactsChanged)));
    assert_eq!(actor.db.contact_avatar("bob").unwrap(), picture);
    let beacon = actor.receive(&incoming("2", "bob"), &encode_content("avatar", "https://evil"), NOW);
    assert!(beacon.event.is_none());
    assert_eq!(actor.db.contact_avatar("bob").unwrap(), picture);
    actor.receive(&incoming("3", "bob"), &encode_content("avatar", ""), NOW);
    assert_eq!(actor.db.contact_avatar("bob"), None);
    assert!(is_picture(picture));
    assert!(!is_picture(&format!("data:image/{}", "x".repeat(512 * 1024))));
    assert_eq!(check_image("file:///x"), Some(ClientFault::NotAPicture));
    assert_eq!(check_image(picture), None);
    assert!(is_control("rekey") && is_control("avatar") && is_control("delete") && !is_control("text"));
}

#[test]
fn a_changed_key_stops_the_conversation() {
    let mut actor = signed_in();
    assert_eq!(
        actor.db.save_identity("bob:1", &vec![1]),
        Ok(IdentityChange::NewOrUnchanged)
    );
    let known = Some("AQ==".to_string());
    assert!(matches!(actor.check_bundle("bob", &known, NOW), SendStep::NeedsSession));
    assert_eq!(actor.db.store_record(AddressStore::Sessions, "bob:1", &vec![7]), Ok(()));
    assert!(matches!(actor.check_bundle("bob", &known, NOW), SendStep::Ready));
    assert!(matches!(actor.check_bundle("bob", &None, NOW), SendStep::Ready));

    let other = Some("Ag==".to_string());
    let step = actor.check_bundle("bob", &other, NOW);
    match step {
        SendStep::Refused { event: Some(ClientEvent::IdentityChanged { id, published, .. }) } => {
            assert_eq!(id, format!("keychange-bob-{NOW}"));
            assert_eq!(published, fingerprint("Ag=="));
        }
        _ => panic!("the key that changed went unnoticed"),
    }
    // It is written into the conversation, and asked once.
    assert_eq!(actor.db.history("bob")[0].kind, "keychange");
    assert!(matches!(
        actor.check_bundle("bob", &other, NOW + 5),
        SendStep::Refused { event: None }
    ));
    assert_eq!(actor.db.history("bob").len(), 1);
    assert_eq!(actor.begin_send("bob", "text", "x"), Err(ClientFault::IdentityChanged));
    assert!(!actor.may_read("bob"));
    assert!(actor.may_read("carol"));

    actor.accept_identity("bob");
    assert!(actor.may_read("bob"));
    assert!(actor.begin_send("bob", "text", "x").is_ok());
    assert_eq!(actor.db.known_identity_b64("bob", 1), Ok(None));
}

#[test]
fn an_unreadable_message_drops_the_ratchet_and_nothing_else() {
    let mut actor = signed_in();
    assert!(actor.db.save_identity("bob:1", &vec![1]).is_ok());
    assert!(actor.db.store_record(AddressStore::Sessions, "bob:1", &vec![7]).is_ok());
    let same = Some("AQ==".to_string());
    assert!(matches!(actor.unreadable("bob", &same, NOW), UnreadableStep::Rebuild));
    assert!(!actor.db.has_session("bob", 1));
    assert_eq!(actor.db.known_identity_b64("bob", 1), Ok(same.clone()));
    assert!(matches!(actor.unreadable("bob", &same, NOW + 59_999), UnreadableStep::Wait));
    assert!(matches!(actor.unreadable("bob", &same, NOW + 60_000), UnreadableStep::Rebuild));
    let other = Some("Ag==".to_string());
    assert!(matches!(actor.unreadable("bob", &other, NOW), UnreadableStep::Disputed { .. }));
    assert_eq!(actor.db.known_identity_b64("bob", 1), Ok(same));
}

#[test]
fn what_was_sent_is_kept_and_sent_again() {
    let mut actor = signed_in();
    assert!(actor.begin_send("bob", "text", "hola").is_ok());
    assert_eq!(actor.envelope_sent("bob", "Roberto"), Ok(()));
    let sent = actor.message_sent("1", "bob", "text", "hola", NOW).ok().unwrap();
    assert_eq!((sent.state.as_str(), sent.mine), ("sent", true));
    assert!(actor.message_sent("2", "bob", "rekey", "", NOW).is_ok());
    assert_eq!(actor.db.history("bob").len(), 1);
    assert_eq!(actor.undelivered_to("bob")[0].id, "1");
    let event = actor.resent("1", "9");
    assert!(matches!(event, Some(ClientEvent::MessageResent { new_id, .. }) if new_id == "9"));
    let event = actor.receipt("9", "delivered", NOW + 1);
    assert!(matches!(event, Some(ClientEvent::Receipt { .. })));
    assert!(actor.undelivered_to("bob").is_empty());
    assert_eq!(actor.db.contacts()[0].state, "accepted");
}

#[test]
fn deleting_for_everyone_leaves_no_trace_in_the_history() {
    let mut actor = signed_in();
    assert!(actor.db.add_message(&message("1", "bob", true, 1)).is_ok());
    assert!(actor.db.add_message(&message("2", "bob", false, 2)).is_ok());
    assert_eq!(actor.delete_message("nope", true), Err(ClientFault::MessageNotFound));
    assert_eq!(actor.delete_message("2", true), Err(ClientFault::NotYourMessage));
    assert_eq!(actor.delete_message("1", true), Ok(Some("bob".to_string())));
    assert_eq!(actor.delete_message("2", false), Ok(None));
    assert!(actor.db.history("bob").is_empty());

    assert!(actor.db.add_message(&message("3", "bob", true, 1)).is_ok());
    assert!(actor.db.add_message(&message("4", "bob", false, 2)).is_ok());
    assert!(actor.db.add_message(&message("5", "carol", true, 2)).is_ok());
    assert_eq!(actor.withdrawals("bob"), ["3"]);
    assert_eq!(actor.delete_conversation("bob"), 2);
    assert_eq!(actor.db.all_messages().len(), 1);
}

#[test]
fn signing_out_keeps_the_conversations() {
    let mut actor = signed_in();
    assert!(actor.db.add_message(&message("1", "bob", true, 1)).is_ok());
    let info = actor.load_profile().unwrap();
    assert_eq!((info.server.as_str(), info.status.as_str()), ("https://hush.example", "online"));
    actor.logout();
    assert!(actor.load_profile().is_none());
    assert_eq!(actor.begin_send("bob", "text", "x"), Err(ClientFault::LogInFirst));
    assert!(matches!(actor.mark_read("bob", NOW), Err(ClientFault::NoSession)));
    assert!(matches!(actor.begin_connect(), Err(ClientFault::NoAccount)));
    // The same account finds them again; another one finds a clean slate.
    assert!(actor.begin_login("https://hush.example//", "alice"));
    let info = match actor.logged_in("https://hush.example/", "alice", "Ali", "T2") {
        Ok(info) => info,
        Err(e) => panic!("{}", e.message()),
    };
    assert_eq!(info.alias, "Ali");
    assert_eq!(actor.db.history("bob").len(), 1);
    actor.profile_changed(Some("Alicia"), Some("away"));
    let (profile, status) = match actor.begin_connect() {
        Ok(found) => found,
        Err(e) => panic!("{}", e.message()),
    };
    assert_eq!((profile.alias.as_str(), profile.token.as_str()), ("Alicia", "T2"));
    assert_eq!(status, Some("away".to_string()));
    assert!(!actor.begin_login("https://hush.example", "bob"));
    assert!(actor.db.all_messages().is_empty());
    assert_eq!(actor.verified("X"), Err(ClientFault::NoPending));
}

fn entry(username: &str, state: &str) -> ContactEntry {
    ContactEntry {
        username: username.into(),
        alias: format!("alias of {username}"),
        state: state.into(),
        status: "online".into(),
        last_seen: None,
        avatar: None,
    }
}

#[test]
fn the_contact_list_is_cached() {
    let mut actor = signed_in();
    let (_, fresh) = actor.sync_contacts(vec![entry("carol", "accepted"), entry("bob", "incoming")]);
    assert_eq!(fresh, ["carol"]);
    assert!(actor.db.set_contact_avatar("bob", Some("data:image/x")).is_ok());
    let (list, fresh) =
        actor.sync_contacts(vec![entry("carol", "accepted"), entry("bob", "accepted")]);
    assert_eq!(fresh, ["bob"]);
    assert_eq!(list[1].avatar, Some("data:image/x".to_string()));
    assert_eq!(list[1].status, "online");
    let cached = actor.cached_contacts();
    assert_eq!(cached[0].username, "bob");
    assert_eq!(cached[0].status, "offline");
    assert_eq!(cached[0].avatar, Some("data:image/x".to_string()));
    assert_eq!(actor.set_avatar(Some("data:image/me")).ok().unwrap(), ["bob", "carol"]);
    assert_eq!(actor.own_avatar(), Some("data:image/me".to_string()));
    assert!(actor.set_avatar(None).is_ok());
    assert_eq!(actor.own_avatar(), None);
    // A list that names somebody twice is taken up to there.
    actor.sync_contacts(vec![entry("dave", "accepted"), entry("dave", "outgoing"), entry("erin", "outgoing")]);
    assert_eq!(actor.cached_contacts().len(), 1);
}

#[test]
fn conversations_move_between_devices() {
    let mut laptop = signed_in();
    assert!(laptop.db.add_message(&message("1", "bob", true, 1)).is_ok());
    assert!(laptop.db.add_message(&message("2", "bob", false, 2)).is_ok());
    assert!(laptop.db.upsert_contact("bob", "Roberto", "accepted").is_ok());
    assert!(laptop.db.set_contact_avatar("bob", Some("data:image/b")).is_ok());
    let everything = laptop.gather_export(NOW);
    assert_eq!(everything.username, "alice");
    assert_eq!(everything.messages.len(), 2);
    assert_eq!(everything.contacts[0].avatar, Some("data:image/b".to_string()));

    let text = hush::export_json::write_export(&everything);
    let cost = hush::transfer::Cost { memory_kib: 64, passes: 1, lanes: 1 };
    let file = hush::transfer::export_at(
        text.as_bytes(),
        "una-contraseña-larga",
        &vec![1; 16],
        &vec![2; 24],
        &cost,
    )
    .unwrap();
    let mut phone = Actor::new(sealed_db());
    assert!(phone.db.add_message(&message("2", "bob", false, 99)).is_ok());
    assert_eq!(phone.import_conversations(&file, "una-contraseña-larga"), Ok(1));
    assert_eq!(phone.import_conversations(&file, "una-contraseña-larga"), Ok(0));
    assert!(phone.import_conversations(&file, "otra-contraseña").is_err());
    let history = phone.db.history("bob");
    assert_eq!(history[0].text, "text of 1");
    assert_eq!(history[1].created_at, 99, "what is here is left alone");
    assert_eq!(phone.db.contact_avatar("bob"), Some("data:image/b".to_string()));
    assert!(laptop.export_conversations("corta", NOW).is_err());
}

#[test]
fn a_key_of_its_own_for_each_device() {
    assert_ne!(DeviceKey::create().0, DeviceKey::create().0);
}

#[test]
fn an_archive_entry_without_contents_is_passed_over() {
    let list = read_archive_list(
        r#"{"entries":[{"id":"1","blob":"A"},{"id":"2"},7,{"blob":"C"},{"id":"3","blob":"B"}]}"#,
    );
    let expected: Vec<(String, String)> =
        vec![("1".to_string(), "A".to_string()), ("3".to_string(), "B".to_string())];
    assert_eq!(list, expected);
    assert!(read_archive_list(r#"{"entries":3}"#).is_empty());
    assert!(read_archive_list("").is_empty());
}

#[test]
fn a_presence_that_is_no_text_is_taken_for_offline() {
    let mut list = read_presence_list(r#"{"presence":{"bob":"away","carol":null}}"#);
    list.sort();
    let expected: Vec<(String, String)> = vec![
        ("bob".to_string(), "away".to_string()),
        ("carol".to_string(), "offline".to_string()),
    ];
    assert_eq!(list, expected);
    assert!(read_presence_list(r#"{"presence":[]}"#).is_empty());
}

#[test]
fn a_record_that_cannot_be_read_stops_the_opening() {
    let row = |record: &str| DbWrite::PutRecord {
        store: AddressStore::Sessions,
        address: "bob:1".to_string(),
        record: record.to_string(),
    };
    assert!(matches!(LocalDb::open(vec![row("not base64!")], None), Err(StorageError::Corrupt)));
    assert!(LocalDb::open(vec![row("AAAA")], None).is_ok());
}

#[test]
fn prekeys_are_numbered_up_to_the_last_number() {
    let mut db = sealed_db();
    assert!(db.save_key(KeyStore::Prekeys, u32::MAX - 2, &vec![1]).is_ok());
    assert!(db.save_key(KeyStore::KyberPrekeys, u32::MAX - 3, &vec![1]).is_ok());
    let plan = db.plan_prekeys(2).unwrap();
    assert_eq!(plan.one_time, vec![u32::MAX - 1, u32::MAX]);
    assert_eq!(plan.kyber_last_resort, u32::MAX - 2);
    assert_eq!(plan.kyber, vec![u32::MAX - 1, u32::MAX]);
    assert!(db.plan_prekeys(3).is_none());
}

#[test]
fn an_upload_carries_a_key_of_each_kind_in_turn() {
    let one_time = vec![PublicKey { id: 1, public: vec![1] }, PublicKey { id: 2, public: vec![2] }];
    let key = |id: u32| SignedKey { id, public: vec![3], signature: vec![4] };
    let body = upload_body("IDENTITY", 77, &key(5), &key(6), &one_time, &vec![key(7), key(8)]);
    let value: serde_json::Value = serde_json::from_str(&body).unwrap();
    assert_eq!(value["identity_key"], "IDENTITY");
    assert_eq!(value["registration_id"], 77);
    assert_eq!(value["bundle_static"]["signed_prekey"]["id"], 5);
    assert_eq!(value["bundle_static"]["kyber_last_resort"]["id"], 6);
    let list = value["one_time_prekeys"].as_array().unwrap();
    let kinds: Vec<&str> = list.iter().map(|k| k["kind"].as_str().unwrap()).collect();
    assert_eq!(kinds, vec!["ec", "kyber", "ec", "kyber"]);
    assert_eq!(list[2]["data"], r#"{"id":2,"public":"Ag=="}"#);
    assert_eq!(list[3]["data"], r#"{"id":8,"public":"Aw==","signature":"BA=="}"#);
}

#[test]
fn what_is_sealed_is_not_sealed_again() {
    let mut db = sealed_db();
    assert_eq!(db.meta_set("username", "alice"), Ok(()));
    let before = db.take_writes().len();
    assert!(before > 0);
    assert_eq!(db.encrypt_existing_rows(&DeviceKey::for_test()), Ok(()));
    assert!(db.take_writes().is_empty());
    assert_eq!(db.meta_get("username"), Some("alice".to_string()));
}

#[test]
fn an_import_counts_each_new_message_once() {
    let mut laptop = signed_in();
    assert!(laptop.db.add_message(&message("1", "bob", true, 1)).is_ok());
    assert!(laptop.db.add_message(&message("2", "bob", false, 2)).is_ok());
    let mut everything = laptop.gather_export(NOW);
    everything.messages.extend(laptop.gather_export(NOW).messages);
    assert_eq!(everything.messages.len(), 4);
    let text = hush::export_json::write_export(&everything);
    let cost = hush::transfer::Cost { memory_kib: 64, passes: 1, lanes: 1 };
    let file = hush::transfer::export_at(
        text.as_bytes(),
        "una-contraseña-larga",
        &vec![1; 16],
        &vec![2; 24],
        &cost,
    )
    .unwrap();
    let mut phone = Actor::new(sealed_db());
    let _ = phone.db.take_writes();
    assert!(phone.import_conversations(&file, "otra-contraseña").is_err());
    assert!(phone.db.take_writes().is_empty());
    assert!(phone.db.history("bob").is_empty());
    assert_eq!(phone.import_conversations(&file, "una-contraseña-larga"), Ok(2));
    assert_eq!(phone.db.history("bob").len(), 2);
}
