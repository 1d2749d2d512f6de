use hush::server::accounts::RegisterRequest;
use hush::server::contacts::read_link_state;
use hush::server::errors::ApiError;
use hush::server::keys::{kind_of, write_kind, PrekeyUpload, UploadKeysRequest};
use hush::server::limits::can_be_now;
use hush::server::live::{Push, ReceiptState};
use hush::server::profile::{read_presence, write_presence};
use hush::server::sessions::AuthUser;
use hush::server::store::{LinkState, PrekeyKind, Presence, Queued, Relay, Write};

const NOW: i64 = 1_700_000_000_000;

fn request(username: &str, alias: &str) -> RegisterRequest {
    RegisterRequest {
        username: username.to_string(),
        alias: alias.to_string(),
        email: format!("{username}@example.com"),
        password: "supersecreta".to_string(),
        registration_id: 42,
        identity_key: "IKEY".to_string(),
    }
}

fn pending_code(relay: &Relay, username: &str) -> String {
    relay.accounts.get(&username.to_string()).unwrap().verify_code.clone().unwrap()
}

/// Registers and verifies an account, returning its bearer token.
fn register(relay: &mut Relay, username: &str, alias: &str) -> String {
    let reply = relay.register(&request(username, alias), username, NOW);
    assert!(reply.is_ok());
    let code = pending_code(relay, username);
    relay.verify_account(username, &code, username, NOW).unwrap()
}

fn auth(relay: &Relay, token: &str) -> AuthUser {
    relay.authenticate(Some(&format!("Bearer {token}"))).ok().unwrap()
}

fn fault<T>(reply: Result<T, ApiError>) -> ApiError {
    match reply {
        Ok(_) => panic!("expected a refusal"),
        Err(e) => e,
    }
}

#[test]
fn account_lifecycle() {
    let mut relay = Relay::new();

    // Wrong verification code is rejected
    assert!(relay.register(&request("carol", "Carol"), "ip", NOW).is_ok());
    let refused = fault(relay.verify_account("carol", "000000x", "ip", NOW));
    assert_eq!(refused.status(), 400);

    // Unverified accounts cannot authenticate or be messaged/profiled
    let alice = register(&mut relay, "alice", "Alicia");
    let me = auth(&relay, &alice);
    assert_eq!(fault(relay.get_profile(&me, "carol", NOW)).status(), 404);

    // Duplicate of a verified username is rejected
    let mut again = request("alice", "Otra");
    again.email = "otra@example.com".to_string();
    assert_eq!(fault(relay.register(&again, "ip", NOW)).status(), 409);

    // Weak password / bad email are rejected
    let mut weak = request("dave", "");
    weak.password = "corta".to_string();
    assert_eq!(fault(relay.register(&weak, "ip", NOW)).status(), 400);

    // Login: right and wrong password
    let relogin = relay.login("alice", "supersecreta", false, "ip", NOW).ok().unwrap();
    assert_eq!(relogin.token, alice);
    assert_eq!(fault(relay.login("alice", "incorrecta", false, "ip", NOW)).status(), 401);

    // Profile returns the alias
    assert_eq!(relay.get_profile(&me, "alice", NOW).ok().unwrap().alias, "Alicia");
}

/// A 6-digit code must not be guessable: attempts are throttled and the code
/// is burned before an attacker gets anywhere near 10^6 tries.
#[test]
fn verification_code_cannot_be_brute_forced() {
    let mut relay = Relay::new();
    assert!(relay.register(&request("victim", "V"), "ip", NOW).is_ok());
    let real_code = pending_code(&relay, "victim");
    let wrong = if real_code == "999999" { "999998" } else { "999999" };

    for attempt in 0..5 {
        let refused = fault(relay.verify_account("victim", wrong, "ip", NOW));
        assert_eq!(refused.status(), 400, "intento {attempt} debería fallar");
    }

    // Even the *correct* code is now refused: the guesser is locked out.
    assert_eq!(fault(relay.verify_account("victim", &real_code, "ip", NOW)).status(), 429);
    // And the code is burned, so waiting does not help either.
    let later = NOW + 15 * 60 * 1000;
    assert_eq!(fault(relay.verify_account("victim", &real_code, "ip", later)), ApiError::InvalidCode);
    assert!(relay.accounts.get(&"victim".to_string()).unwrap().verify_code.is_none());
}

/// Password guessing (and the Argon2 CPU burn that comes with it) is capped.
#[test]
fn login_attempts_are_throttled() {
    let mut relay = Relay::new();
    register(&mut relay, "alice", "Alicia");

    for attempt in 0..10 {
        let refused = fault(relay.login("alice", "incorrecta", false, "ip", NOW));
        assert_eq!(refused.status(), 401, "intento {attempt} debería ser 401");
    }
    let refused = fault(relay.login("alice", "supersecreta", false, "ip", NOW));
    assert_eq!(refused.status(), 429, "el 11º intento debe estar limitado");
}

/// Internal failures must not describe the database to the caller.
#[test]
fn errors_do_not_leak_internals() {
    let relay = Relay::new();
    let refused = fault(relay.authenticate(Some("Bearer token-inventado")));
    assert_eq!(refused.status(), 401);
    for error in [refused, ApiError::Internal] {
        let body = format!("{} {}", error.code(), error.message());
        for leak in ["sqlx", "SELECT", "accounts", "sqlite"] {
            assert!(!body.contains(leak), "la respuesta filtra {leak}: {body}");
        }
    }
}

/// Contact requests gate messaging: strangers are refused, and a link only
/// forms once the other side accepts.
#[test]
fn contact_requests_gate_messaging() {
    let mut relay = Relay::new();
    let alice = register(&mut relay, "alice", "Alicia");
    let bob = register(&mut relay, "bob", "Roberto");
    let alice = auth(&relay, &alice);
    let bob = auth(&relay, &bob);

    // Without a link, messaging is refused.
    assert_eq!(fault(relay.send_message(&alice, "bob", "CIPHERTEXT", NOW)).status(), 403);

    // Alice asks; Bob sees an incoming request, Alice an outgoing one.
    let reply = relay.request_contact(&alice, "bob", NOW).ok().unwrap();
    assert_eq!(reply.state.text(), "outgoing");
    assert_eq!(relay.list_contacts(&bob)[0].state.text(), "incoming");
    assert_eq!(relay.list_contacts(&alice)[0].state.text(), "outgoing");

    // Still no messaging while pending, in either direction.
    assert_eq!(fault(relay.send_message(&alice, "bob", "CIPHERTEXT", NOW)).status(), 403);
    assert_eq!(fault(relay.send_message(&bob, "alice", "CIPHERTEXT", NOW)).status(), 403);

    // Asking twice is rejected.
    assert_eq!(fault(relay.request_contact(&alice, "bob", NOW)).status(), 409);

    // Bob accepts: both sides become contacts and messaging works.
    assert!(relay.accept_contact(&bob, "alice", NOW).is_ok());
    assert_eq!(relay.list_contacts(&alice)[0].state.text(), "accepted");
    assert_eq!(relay.list_contacts(&bob)[0].alias, "Alicia");
    assert!(relay.send_message(&alice, "bob", "CIPHERTEXT", NOW).is_ok());

    // Removing the contact closes the door again, for both.
    relay.remove_contact(&bob, "alice");
    assert_eq!(relay.list_contacts(&alice).len(), 0);
    assert_eq!(fault(relay.send_message(&alice, "bob", "CIPHERTEXT", NOW)).status(), 403);

    // You cannot add yourself.
    assert_eq!(fault(relay.request_contact(&alice, "alice", NOW)).status(), 400);
}

fn befriend(relay: &mut Relay, a: &AuthUser, b: &AuthUser) {
    // The second request from the other side counts as an acceptance.
    assert!(relay.request_contact(a, &b.username, NOW).is_ok());
    let reply = relay.request_contact(b, &a.username, NOW).ok().unwrap();
    assert_eq!(reply.state, LinkState::Accepted);
}

fn pair(relay: &mut Relay) -> (AuthUser, AuthUser) {
    let alice = register(relay, "alice", "Alicia");
    let bob = register(relay, "bob", "Roberto");
    let alice = auth(relay, &alice);
    let bob = auth(relay, &bob);
    befriend(relay, &alice, &bob);
    (alice, bob)
}

fn upload(kind: &str, data: &str) -> PrekeyUpload {
    PrekeyUpload { kind: kind.to_string(), data: data.to_string() }
}

fn keys(one_time: Vec<PrekeyUpload>) -> UploadKeysRequest {
    UploadKeysRequest {
        bundle_static: r#"{"kyber_last_resort":"KLR","signed_prekey":"SPK"}"#.to_string(),
        one_time_prekeys: one_time,
        identity_key: None,
        registration_id: None,
    }
}

#[test]
fn full_flow() {
    let mut relay = Relay::new();
    let (alice, bob) = pair(&mut relay);

    // Auth required
    assert_eq!(fault(relay.authenticate(None)).status(), 401);

    // Bob uploads his prekey bundle
    let request = keys(vec![upload("ec", "EC1"), upload("kyber", "KYB1")]);
    assert_eq!(relay.upload_keys(&bob, &request), None);

    // Alice fetches Bob's bundle; one-time prekeys are consumed
    let bundle = relay.fetch_bundle(&alice, "bob", NOW).ok().unwrap();
    assert_eq!(bundle.identity_key, "IKEY");
    assert_eq!(bundle.one_time_prekey.unwrap(), "EC1");
    assert_eq!(bundle.kyber_prekey.unwrap(), "KYB1");
    let bundle2 = relay.fetch_bundle(&alice, "bob", NOW).ok().unwrap();
    assert!(bundle2.one_time_prekey.is_none());
    assert!(bundle2.kyber_prekey.is_none());

    // Offline delivery: Alice sends while Bob is not connected
    let sent = relay.send_message(&alice, "bob", "CIPHERTEXT-1", NOW).ok().unwrap();
    assert!(sent.notices.is_empty());

    // Bob connects and receives the backlog
    let opened = relay.message_stream(&bob, NOW).ok().unwrap();
    assert_eq!(opened.backlog.len(), 1);
    assert_eq!(opened.backlog[0].id, sent.id);
    assert_eq!(opened.backlog[0].sender, "alice");
    assert_eq!(opened.backlog[0].body, "CIPHERTEXT-1");

    // Live delivery while connected
    let live = relay.send_message(&alice, "bob", "CIPHERTEXT-2", NOW + 1).ok().unwrap();
    assert_eq!(live.notices.len(), 1);
    assert_eq!(live.notices[0].to, "bob");
    assert_eq!(live.notices[0].listener, opened.listener);
    assert!(matches!(&live.notices[0].push, Push::Message(m) if m.body == "CIPHERTEXT-2"));
    assert_eq!(live.notices[0].push.event(), "message");

    // Ack deletes from the queue: a reconnect only replays message 2
    assert!(relay.ack_message(&bob, &sent.id, false, NOW).is_ok());
    relay.close_stream("bob", opened.listener, NOW);
    let replay = relay.message_stream(&bob, NOW).ok().unwrap();
    assert_eq!(replay.backlog.len(), 1);
    assert_eq!(replay.backlog[0].body, "CIPHERTEXT-2");

    // Sending to an unknown user fails
    assert_eq!(fault(relay.send_message(&alice, "nobody", "X", NOW)).status(), 404);
}

#[test]
fn each_fault_of_a_registration_has_its_answer() {
    let mut relay = Relay::new();
    let mut attempt = |change: fn(&mut RegisterRequest), ip: &str| {
        let mut req = request("erin", "Erin");
        change(&mut req);
        fault(relay.register(&req, ip, NOW))
    };
    assert_eq!(attempt(|r| r.username = "not valid".into(), "1"), ApiError::InvalidUsername);
    assert_eq!(attempt(|r| r.username = "".into(), "2"), ApiError::InvalidUsername);
    assert_eq!(attempt(|r| r.username = "x".repeat(33), "3"), ApiError::InvalidUsername);
    // Three mails an hour for one address, whatever the source.
    assert_eq!(attempt(|r| r.alias = "x".repeat(65), "4"), ApiError::RateLimited);
    let alias = |r: &mut RegisterRequest| {
        r.email = "a@a".into();
        r.alias = "x".repeat(65);
    };
    assert_eq!(attempt(alias, "5"), ApiError::AliasTooLong);
    assert_eq!(attempt(|r| r.email = "nowhere".into(), "6"), ApiError::InvalidEmail);
    let long_mail = |r: &mut RegisterRequest| r.email = format!("{}@x", "y".repeat(253));
    assert_eq!(attempt(long_mail, "7"), ApiError::InvalidEmail);
    let weak = |r: &mut RegisterRequest| {
        r.email = "b@b".into();
        r.password = "1234567".into();
    };
    assert_eq!(attempt(weak, "8"), ApiError::WeakPassword);
    let long = |r: &mut RegisterRequest| {
        r.email = "c@c".into();
        r.password = "p".repeat(1025);
    };
    assert_eq!(attempt(long, "9"), ApiError::PasswordTooLong);
    let key = |r: &mut RegisterRequest| {
        r.email = "d@d".into();
        r.identity_key = "k".repeat(64 * 1024 + 1);
    };
    assert_eq!(attempt(key, "10"), ApiError::InvalidRegistration);
}

#[test]
fn registrations_from_one_source_are_throttled() {
    let mut relay = Relay::new();
    for i in 0..5 {
        let mut req = request("bad name", "");
        req.email = format!("{i}@example.com");
        assert_eq!(fault(relay.register(&req, "ip", NOW)), ApiError::InvalidUsername);
    }
    assert_eq!(fault(relay.register(&request("frank", "F"), "ip", NOW)), ApiError::RateLimited);
    assert!(relay.register(&request("frank", "F"), "ip", NOW + 60 * 60 * 1000).is_ok());
}

#[test]
fn usernames_are_stored_in_lowercase() {
    let mut relay = Relay::new();
    let mut req = request("GrAcE", "Grace");
    req.email = "g@example.com".into();
    let reply = relay.register(&req, "ip", NOW).ok().unwrap();
    assert_eq!(reply.username, "grace");
    assert_eq!(reply.email, "g@example.com");
    assert_eq!(reply.code, pending_code(&relay, "grace"));
    assert_eq!(reply.code.len(), 6);
    assert!(relay.verify_account("GRACE", &reply.code, "ip", NOW).is_ok());
    assert_eq!(fault(relay.verify_account("grace", &reply.code, "ip", NOW)), ApiError::AlreadyVerified);
    assert_eq!(fault(relay.verify_account("nobody", "1", "ip", NOW)), ApiError::NotFound);
}

#[test]
fn an_unverified_account_can_be_registered_again() {
    let mut relay = Relay::new();
    let first = relay.register(&request("heidi", "H"), "ip", NOW).ok().unwrap();
    let token = relay.accounts.get(&"heidi".to_string()).unwrap().token.clone();
    assert_eq!(fault(relay.login("heidi", "supersecreta", false, "ip", NOW)), ApiError::NotVerified);
    assert_eq!(fault(relay.authenticate(Some(&format!("Bearer {token}")))), ApiError::InvalidSession);

    let mut again = request("heidi", "Heidi");
    again.password = "otra-secreta".into();
    let second = relay.register(&again, "ip", NOW + 5).ok().unwrap();
    let account = relay.accounts.get(&"heidi".to_string()).unwrap();
    assert_eq!(account.alias, "Heidi");
    assert_eq!(account.created_at, NOW);
    assert_eq!(account.verify_expires, Some(NOW + 5 + 24 * 60 * 60 * 1000));
    assert_eq!(account.status, Presence::Online);
    assert_ne!(account.token, token);
    // A code works until it expires.
    let expired = NOW + 5 + 24 * 60 * 60 * 1000;
    assert_eq!(fault(relay.verify_account("heidi", &second.code, "ip", expired)), ApiError::InvalidCode);
    assert!(relay.verify_account("heidi", &second.code, "ip", expired - 1).is_ok());
    assert!(relay.login("heidi", "otra-secreta", false, "ip", NOW).is_ok());
    let _ = first;
}

#[test]
fn storing_a_registration_refuses_a_token_that_is_taken() {
    let mut relay = Relay::new();
    let token = register(&mut relay, "alice", "Alicia");
    let hash = relay.accounts.get(&"alice".to_string()).unwrap().password_hash.clone();
    assert!(hash.starts_with("$argon2id$v=19$m=19456,t=2,p=1$"));
    let req = request("ivan", "I");
    let refused = relay.store_registration(&req, hash.clone(), token, "000001".into(), NOW);
    assert_eq!(refused, Some(ApiError::Internal));
    assert!(!relay.accounts.has(&"ivan".to_string()));
    let stored = relay.store_registration(&req, hash, "fresh".into(), "000001".into(), NOW);
    assert_eq!(stored, None);
    assert_eq!(relay.verify_account("ivan", "000001", "ip", NOW).unwrap(), "fresh");
}

#[test]
fn a_new_device_takes_over() {
    let mut relay = Relay::new();
    let (alice, bob) = pair(&mut relay);
    let old = relay.accounts.get(&"alice".to_string()).unwrap().token.clone();
    let a = relay.message_stream(&alice, NOW).ok().unwrap();
    let b = relay.message_stream(&bob, NOW).ok().unwrap();
    assert_ne!(a.listener, b.listener);

    let session = relay.login("Alice", "supersecreta", true, "ip", NOW + 7).ok().unwrap();
    assert_ne!(session.token, old);
    assert_eq!(session.dropped, Some(a.listener));
    assert_eq!(session.notices.len(), 1);
    assert_eq!(session.notices[0].to, "bob");
    assert_eq!(fault(relay.authenticate(Some(&format!("Bearer {old}")))), ApiError::InvalidSession);
    assert_eq!(auth(&relay, &session.token).username, "alice");
    assert!(!relay.live.has(&"alice".to_string()));
    assert_eq!(relay.accounts.get(&"alice".to_string()).unwrap().last_seen, Some(NOW + 7));
    // The stream that was dropped reports nothing when it ends.
    assert!(relay.close_stream("alice", a.listener, NOW + 8).is_empty());
    assert_eq!(relay.accounts.get(&"alice".to_string()).unwrap().last_seen, Some(NOW + 7));
}

#[test]
fn a_reset_sets_the_password_and_ends_the_session() {
    let mut relay = Relay::new();
    let old = register(&mut relay, "alice", "Alicia");
    assert!(relay.forgot_password("nobody", "ip", NOW).ok().unwrap().is_none());
    let mail = relay.forgot_password("ALICE", "ip", NOW).ok().unwrap().unwrap();
    assert_eq!(mail.email, "alice@example.com");
    assert_eq!(mail.username, "alice");

    let wrong = if mail.code == "999999" { "999998" } else { "999999" };
    let reset = |relay: &mut Relay, code: &str, password: &str| {
        relay.reset_password("alice", code, password, "ip", NOW)
    };
    assert_eq!(reset(&mut relay, &mail.code, "corta"), Some(ApiError::WeakPassword));
    assert_eq!(reset(&mut relay, &mail.code, &"p".repeat(1025)), Some(ApiError::PasswordTooLong));
    assert_eq!(reset(&mut relay, wrong, "nueva-secreta"), Some(ApiError::InvalidCode));
    assert_eq!(reset(&mut relay, &mail.code, "nueva-secreta"), None);
    assert_eq!(reset(&mut relay, &mail.code, "nueva-secreta"), Some(ApiError::InvalidCode));
    assert_eq!(reset(&mut relay, &mail.code, "nueva-secreta"), Some(ApiError::RateLimited));
    assert_eq!(
        relay.reset_password("nobody", "1", "nueva-secreta", "ip", NOW),
        Some(ApiError::InvalidCode)
    );

    assert_eq!(fault(relay.authenticate(Some(&format!("Bearer {old}")))), ApiError::InvalidSession);
    assert_eq!(fault(relay.login("alice", "supersecreta", false, "ip", NOW)), ApiError::InvalidCredentials);
    assert!(relay.login("alice", "nueva-secreta", false, "ip", NOW).is_ok());
}

#[test]
fn reset_codes_are_throttled_and_expire() {
    let mut relay = Relay::new();
    register(&mut relay, "alice", "Alicia");
    let mail = relay.forgot_password("alice", "ip", NOW).ok().unwrap().unwrap();
    let hour = 60 * 60 * 1000;
    assert_eq!(
        relay.reset_password("alice", &mail.code, "nueva-secreta", "ip", NOW + hour),
        Some(ApiError::InvalidCode)
    );
    assert!(relay.forgot_password("alice", "ip", NOW).is_ok());
    assert!(relay.forgot_password("alice", "ip", NOW).is_ok());
    assert_eq!(fault(relay.forgot_password("alice", "ip", NOW)), ApiError::RateLimited);
}

#[test]
fn a_block_looks_like_the_contact_disappeared() {
    let mut relay = Relay::new();
    let (alice, bob) = pair(&mut relay);
    assert!(relay.send_message(&bob, "alice", "queued", NOW).is_ok());
    assert_eq!(fault(relay.block_contact(&alice, "alice", NOW)), ApiError::SelfBlock);
    assert_eq!(fault(relay.block_contact(&alice, "nobody", NOW)), ApiError::Internal);

    let blocked = relay.block_contact(&alice, "Bob", NOW).ok().unwrap();
    assert_eq!(blocked.state, LinkState::Blocked);
    assert_eq!(relay.list_contacts(&alice)[0].state, LinkState::Blocked);
    assert!(relay.list_contacts(&bob).is_empty());
    // What was queued is gone, and nothing more gets through.
    assert!(relay.message_stream(&alice, NOW).ok().unwrap().backlog.is_empty());
    assert_eq!(fault(relay.send_message(&bob, "alice", "x", NOW)), ApiError::NotAContact);

    // Asking again stays pending forever, and does not show on the other side.
    let asked = relay.request_contact(&bob, "alice", NOW).ok().unwrap();
    assert_eq!(asked.state, LinkState::Outgoing);
    assert!(asked.notices.is_empty());
    assert_eq!(relay.list_contacts(&alice)[0].state, LinkState::Blocked);
    assert_eq!(fault(relay.accept_contact(&alice, "bob", NOW)), ApiError::NoRequest);

    // Lifting the block is removing the contact; then they can start over.
    relay.remove_contact(&alice, "bob");
    befriend(&mut relay, &bob, &alice);
    assert_eq!(fault(relay.request_contact(&bob, "alice", NOW)), ApiError::AlreadyContacts);
}

#[test]
fn looking_for_names_is_metered() {
    let mut relay = Relay::new();
    let alice = register(&mut relay, "alice", "Alicia");
    let alice = auth(&relay, &alice);
    for _ in 0..5 {
        assert_eq!(fault(relay.request_contact(&alice, "nobody", NOW)), ApiError::NotFound);
        assert_eq!(fault(relay.get_profile(&alice, "nobody", NOW)), ApiError::NotFound);
    }
    assert_eq!(fault(relay.request_contact(&alice, "nobody", NOW)), ApiError::RateLimited);
    assert_eq!(fault(relay.get_profile(&alice, "nobody", NOW)), ApiError::RateLimited);
    // Somebody who exists is still found.
    assert!(relay.get_profile(&alice, "alice", NOW).is_ok());
    for _ in 0..14 {
        let _ = relay.request_contact(&alice, "nobody", NOW);
    }
    register(&mut relay, "bob", "Roberto");
    assert_eq!(fault(relay.request_contact(&alice, "bob", NOW)), ApiError::RateLimited);
}

#[test]
fn strangers_see_nothing_but_the_profile() {
    let mut relay = Relay::new();
    let (alice, bob) = pair(&mut relay);
    let carol = register(&mut relay, "carol", "Carol");
    let carol = auth(&relay, &carol);
    assert_eq!(relay.upload_keys(&bob, &keys(vec![])), None);
    relay.message_stream(&bob, NOW).ok().unwrap();

    assert_eq!(fault(relay.fetch_bundle(&carol, "bob", NOW)), ApiError::NotFound);
    assert_eq!(fault(relay.fetch_bundle(&carol, "nobody", NOW)), ApiError::NotFound);
    assert!(relay.fetch_bundle(&alice, "bob", NOW).is_ok());
    assert!(relay.fetch_bundle(&bob, "bob", NOW).is_ok());
    assert_eq!(fault(relay.fetch_bundle(&bob, "alice", NOW)), ApiError::NoKeys);

    assert_eq!(relay.get_profile(&carol, "bob", NOW).ok().unwrap().status, None);
    assert_eq!(relay.get_profile(&alice, "bob", NOW).ok().unwrap().status, Some(Presence::Online));
    let names = vec!["BOB".to_string(), "nobody".to_string()];
    let seen = relay.query_presence(&alice, &names).ok().unwrap();
    assert_eq!(seen[0], ("bob".to_string(), Some(Presence::Online)));
    assert_eq!(seen[1], ("nobody".to_string(), None));
    assert_eq!(relay.query_presence(&carol, &names).ok().unwrap()[0].1, None);
    let many = vec!["x".to_string(); 501];
    assert_eq!(fault(relay.query_presence(&alice, &many)), ApiError::TooManyUsernames);
}

#[test]
fn a_profile_can_be_changed() {
    let mut relay = Relay::new();
    let (alice, bob) = pair(&mut relay);
    relay.message_stream(&bob, NOW).ok().unwrap();
    let nothing = relay.update_me(&alice, None, None).ok().unwrap();
    assert!(nothing.notices.is_empty());
    let named = relay.update_me(&alice, Some("  Ali  "), Some("busy")).ok().unwrap();
    assert_eq!((named.alias.as_str(), named.status), ("Ali", Presence::Busy));
    assert_eq!(named.notices.len(), 1);
    assert_eq!(fault(relay.update_me(&alice, Some("  "), None)), ApiError::AliasLength);
    assert_eq!(fault(relay.update_me(&alice, Some(&"x".repeat(65)), None)), ApiError::AliasLength);
    // The name is taken even where the presence is refused.
    assert_eq!(fault(relay.update_me(&alice, Some("Alicia"), Some("offline"))), ApiError::InvalidStatus);
    assert_eq!(relay.accounts.get(&"alice".to_string()).unwrap().alias, "Alicia");
    assert_eq!(relay.accounts.get(&"alice".to_string()).unwrap().status, Presence::Busy);
}

#[test]
fn presence_follows_the_stream() {
    let mut relay = Relay::new();
    let (alice, bob) = pair(&mut relay);
    let a = relay.message_stream(&alice, NOW).ok().unwrap();
    let b = relay.message_stream(&bob, NOW + 1).ok().unwrap();
    assert_eq!(b.notices.len(), 1);
    assert_eq!(b.notices[0].to, "alice");
    let line = &relay.list_contacts(&alice)[0];
    assert_eq!((line.status, line.last_seen), (Some(Presence::Online), None));
    // A newer stream of the same account is not evicted by the older one.
    let newer = relay.message_stream(&bob, NOW + 2).ok().unwrap();
    assert!(relay.close_stream("bob", b.listener, NOW + 3).is_empty());
    assert!(relay.live.has(&"bob".to_string()));
    let gone = relay.close_stream("bob", newer.listener, NOW + 4);
    assert_eq!(gone.len(), 1);
    assert_eq!(gone[0].listener, a.listener);
    let line = &relay.list_contacts(&alice)[0];
    assert_eq!((line.status, line.last_seen), (None, Some(NOW + 4)));
    for _ in 0..27 {
        assert!(relay.message_stream(&bob, NOW + 5).is_ok());
    }
    assert!(relay.message_stream(&bob, NOW + 5).is_ok());
    assert_eq!(fault(relay.message_stream(&bob, NOW + 5)), ApiError::RateLimited);
}

#[test]
fn receipts_reach_the_sender() {
    let mut relay = Relay::new();
    let (alice, bob) = pair(&mut relay);
    relay.message_stream(&alice, NOW).ok().unwrap();
    let sent = relay.send_message(&alice, "bob", "one", NOW).ok().unwrap();
    // Only the recipient can acknowledge it.
    assert!(relay.ack_message(&alice, &sent.id, false, NOW).ok().unwrap().is_empty());
    assert!(relay.messages.has(&sent.id));
    let told = relay.ack_message(&bob, &sent.id, false, NOW + 1).ok().unwrap();
    assert!(matches!(
        &told[0].push,
        Push::Receipt { id, state: ReceiptState::Delivered, at } if *id == sent.id && *at == NOW + 1
    ));
    assert!(relay.mark_read(&alice, &sent.id, NOW).ok().unwrap().is_empty());
    let read = relay.mark_read(&bob, &sent.id, NOW + 2).ok().unwrap();
    assert!(matches!(&read[0].push, Push::Receipt { state: ReceiptState::Read, .. }));
    assert!(relay.mark_read(&bob, &sent.id, NOW + 3).ok().unwrap().is_empty());

    // One that could not be read leaves no trace.
    let lost = relay.send_message(&alice, "bob", "two", NOW).ok().unwrap();
    assert!(relay.ack_message(&bob, &lost.id, true, NOW).ok().unwrap().is_empty());
    assert!(!relay.messages.has(&lost.id));
    assert!(relay.mark_read(&bob, &lost.id, NOW).ok().unwrap().is_empty());

    let long = "x".repeat(129);
    assert_eq!(fault(relay.ack_message(&bob, &long, false, NOW)), ApiError::InvalidId);
    assert_eq!(fault(relay.mark_read(&bob, &long, NOW)), ApiError::InvalidId);
}

#[test]
fn receipts_nobody_claimed_are_pruned() {
    let mut relay = Relay::new();
    let (alice, bob) = pair(&mut relay);
    let month = 30 * 24 * 60 * 60 * 1000;
    let old = relay.send_message(&alice, "bob", "old", NOW).ok().unwrap();
    assert!(relay.ack_message(&bob, &old.id, false, NOW).is_ok());
    let new = relay.send_message(&alice, "bob", "new", NOW).ok().unwrap();
    assert!(relay.ack_message(&bob, &new.id, false, NOW + month).is_ok());
    assert!(relay.deliveries.has(&old.id));
    let last = relay.send_message(&alice, "bob", "last", NOW).ok().unwrap();
    assert!(relay.ack_message(&bob, &last.id, false, NOW + month + 1).is_ok());
    assert!(!relay.deliveries.has(&old.id));
    assert!(relay.deliveries.has(&new.id));
}

#[test]
fn mailboxes_have_a_bottom() {
    let mut relay = Relay::new();
    let (alice, _bob) = pair(&mut relay);
    // By bytes.
    let big = "x".repeat(15 * 1024 * 1024);
    for i in 0..17 {
        assert!(relay.send_message(&alice, "bob", &big, NOW + i).is_ok());
    }
    assert_eq!(fault(relay.send_message(&alice, "bob", &big, NOW)), ApiError::MailboxFull);
    assert!(relay.send_message(&alice, "bob", "small", NOW).is_ok());
    // By the number of attempts, too.
    for _ in 0..101 {
        assert!(relay.send_message(&alice, "bob", "s", NOW).is_ok());
    }
    assert_eq!(fault(relay.send_message(&alice, "bob", "s", NOW)), ApiError::RateLimited);
}

#[test]
fn an_identifier_is_used_once() {
    let mut relay = Relay::new();
    let (alice, _bob) = pair(&mut relay);
    assert!(relay.queue_message(&alice, "bob", "a", "same".into(), NOW).is_ok());
    assert_eq!(fault(relay.queue_message(&alice, "bob", "b", "same".into(), NOW)), ApiError::Internal);
    assert_eq!(relay.messages.get(&"same".to_string()).unwrap().body, "a");
}

#[test]
fn the_backlog_comes_in_order_of_time() {
    let mut relay = Relay::new();
    let (alice, bob) = pair(&mut relay);
    for at in [5, 1, 3] {
        assert!(relay.send_message(&alice, "bob", &format!("at {at}"), NOW + at).is_ok());
    }
    let backlog = relay.message_stream(&bob, NOW + 9).ok().unwrap().backlog;
    let bodies: Vec<&str> = backlog.iter().map(|m| m.body.as_str()).collect();
    assert_eq!(bodies, ["at 1", "at 3", "at 5"]);
}

#[test]
fn an_upload_replaces_what_was_there() {
    let mut relay = Relay::new();
    let (alice, bob) = pair(&mut relay);
    assert_eq!(relay.upload_keys(&alice, &keys(vec![upload("ec", "A1")])), None);
    assert_eq!(relay.upload_keys(&bob, &keys(vec![upload("ec", "B1"), upload("ec", "B2")])), None);
    let mut second = keys(vec![upload("kyber", "B3")]);
    second.identity_key = Some("NEW".into());
    second.registration_id = Some(7);
    assert_eq!(relay.upload_keys(&bob, &second), None);
    let bundle = relay.fetch_bundle(&alice, "bob", NOW).ok().unwrap();
    assert_eq!(bundle.identity_key, "NEW");
    assert_eq!(bundle.registration_id, 7);
    assert!(bundle.one_time_prekey.is_none());
    assert_eq!(bundle.kyber_prekey.unwrap(), "B3");
    assert_eq!(relay.fetch_bundle(&bob, "alice", NOW).ok().unwrap().one_time_prekey.unwrap(), "A1");

    // An identity comes with its number or not at all.
    let mut half = keys(vec![]);
    half.identity_key = Some("HALF".into());
    assert_eq!(relay.upload_keys(&bob, &half), None);
    assert_eq!(relay.accounts.get(&"bob".to_string()).unwrap().identity_key, "NEW");

    let many = (0..201).map(|i| upload("ec", &i.to_string())).collect();
    assert_eq!(relay.upload_keys(&bob, &keys(many)), Some(ApiError::TooManyPrekeys));
    assert_eq!(relay.upload_keys(&bob, &keys(vec![upload("rsa", "x")])), Some(ApiError::PrekeyKind));
    let long = keys(vec![upload("ec", &"x".repeat(64 * 1024 + 1))]);
    assert_eq!(relay.upload_keys(&bob, &long), Some(ApiError::InvalidKeys));
    let mut wide = keys(vec![]);
    wide.bundle_static = "x".repeat(64 * 1024 + 1);
    assert_eq!(relay.upload_keys(&bob, &wide), Some(ApiError::InvalidKeys));
}

#[test]
fn history_is_archived_per_account() {
    let mut relay = Relay::new();
    let (alice, bob) = pair(&mut relay);
    assert_eq!(relay.put_archive(&alice, "one", "blob", NOW + 5), None);
    assert_eq!(relay.put_archive(&alice, "two", "blob2", NOW + 1), None);
    assert_eq!(relay.put_archive(&bob, "one", "other", NOW), None);
    // Overwriting keeps the moment at which it was first stored.
    assert_eq!(relay.put_archive(&alice, "one", "changed", NOW), None);
    let list = relay.list_archive(&alice);
    assert_eq!((list[0].id.as_str(), list[0].blob.as_str()), ("two", "blob2"));
    assert_eq!((list[1].id.as_str(), list[1].blob.as_str()), ("one", "changed"));
    assert_eq!(relay.delete_archive_entry(&alice, "one"), None);
    assert_eq!(relay.list_archive(&alice).len(), 1);
    assert_eq!(relay.list_archive(&bob).len(), 1);
    let long = "x".repeat(129);
    assert_eq!(relay.put_archive(&alice, &long, "b", NOW), Some(ApiError::InvalidId));
    assert_eq!(relay.delete_archive_entry(&alice, &long), Some(ApiError::InvalidId));
}

#[test]
fn the_journal_brings_the_relay_back() {
    let mut relay = Relay::new();
    let (alice, _bob) = pair(&mut relay);
    let sent = relay.send_message(&alice, "bob", "hello", NOW).ok().unwrap();
    let writes = relay.take_writes();
    assert!(!writes.is_empty());
    assert!(relay.take_writes().is_empty());

    let mut back = Relay::restore(writes).unwrap();
    assert_eq!(back.messages.get(&sent.id).unwrap().body, "hello");
    assert_eq!(back.link_state("bob", "alice"), Some(LinkState::Accepted));
    assert!(back.login("alice", "supersecreta", false, "ip", NOW).is_ok());

    // Rows that do not fit together bring nothing back.
    let stray = Queued {
        sender: "alice".into(),
        recipient: "nobody".into(),
        body: "x".into(),
        created_at: NOW,
    };
    assert!(Relay::restore(vec![Write::PutMessage { id: "1".into(), row: stray }]).is_none());
    assert!(Relay::restore(Vec::new()).is_some());
}

#[test]
fn errors_have_their_status_and_code() {
    for (error, status, code) in [
        (ApiError::InvalidUsername, 400, "invalid_username"),
        (ApiError::UsernameTaken, 409, "username_taken"),
        (ApiError::NotFound, 404, "user_not_found"),
        (ApiError::InvalidCredentials, 401, "invalid_credentials"),
        (ApiError::NotVerified, 403, "not_verified"),
        (ApiError::RateLimited, 429, "rate_limited"),
        (ApiError::MailboxFull, 507, "mailbox_full"),
        (ApiError::ArchiveFull, 507, "archive_full"),
        (ApiError::PayloadTooLarge, 413, "payload_too_large"),
        (ApiError::Internal, 500, "internal_error"),
    ] {
        assert_eq!((error.status(), error.code()), (status, code));
    }
    assert_eq!(ApiError::Internal.message(), "Internal server error");
}

#[test]
fn what_a_row_names_reads_back() {
    for state in [LinkState::Incoming, LinkState::Outgoing, LinkState::Accepted, LinkState::Blocked] {
        assert_eq!(read_link_state(state.text()), Some(state));
    }
    assert_eq!(LinkState::Blocked.text(), "blocked");
    assert_eq!(read_link_state("friend"), None);
    for presence in [Presence::Online, Presence::Away, Presence::Busy] {
        assert_eq!(read_presence(write_presence(Some(presence))), Some(presence));
    }
    assert_eq!(write_presence(None), "offline");
    assert_eq!(read_presence("offline"), None);
    for kind in [PrekeyKind::Ec, PrekeyKind::Kyber] {
        assert_eq!(kind_of(write_kind(kind)), Some(kind));
    }
    assert_eq!(write_kind(PrekeyKind::Kyber), "kyber");
    assert_eq!(kind_of("rsa"), None);
}

#[test]
fn a_clock_leaves_room_for_what_is_counted_from_it() {
    let longest: i64 = 30 * 24 * 3600 * 1000;
    assert!(can_be_now(0) && can_be_now(i64::MAX - longest));
    assert!(!can_be_now(-1) && !can_be_now(i64::MAX - longest + 1));
}
