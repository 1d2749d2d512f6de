use hush::desktop::{
    alert_channel, contact_json, idle_seconds, interface_event, lock_file, preview, profile_file,
    profile_name, reports_disconnection, wide,
};
use hush::api::ContactEntry;
use hush::client::{ClientEvent, DecryptedMessage};
use hush::logs::{keep_days, next_log, should_prune, startup_warnings, StartupWarning};
use hush::mail::{config_missing, MailConfig, MailEnv, MailFault, Protection};
use hush::password::hash_password;
use hush::random::{new_code, new_token, six_digits};
use hush::text::{constant_time_eq, parse_i64, parse_u64, split, trim, write_decimal, write_signed};

/// The webview reads a fixed set of fields off each contact; one missing
/// silently disappears on its way there.
#[test]
fn a_contact_reaches_the_interface_with_every_field_it_reads() {
    let text = contact_json(&ContactEntry {
        username: "alice".into(),
        alias: "Alicia".into(),
        state: "accepted".into(),
        status: "online".into(),
        last_seen: Some(1_700_000_000_000),
        avatar: Some("data:image/jpeg;base64,AAAA".into()),
    });
    let value: serde_json::Value = serde_json::from_str(&text).unwrap();
    // The fields declared by `interface ContactEntry` in main.ts.
    for field in ["username", "alias", "state", "status", "last_seen", "avatar"] {
        assert!(!value[field].is_null(), "the interface never sees {field}");
    }
    assert_eq!(value["avatar"], "data:image/jpeg;base64,AAAA");
}

#[test]
fn events_reach_the_interface_under_their_names() {
    let message = ClientEvent::Message(DecryptedMessage {
        id: "1".into(),
        sender: "bob".into(),
        kind: "text".into(),
        text: "\"hola\"\n".into(),
        created_at: -3,
    });
    let (name, text) = interface_event(&message);
    let value: serde_json::Value = serde_json::from_str(&text).unwrap();
    assert_eq!(name, "hush://message");
    assert_eq!(value["text"], "\"hola\"\n");
    assert_eq!(value["created_at"], -3);
    let (name, text) = interface_event(&ClientEvent::ContactsChanged);
    assert_eq!((name, text.as_str()), ("hush://contacts", "null"));
    let resent = ClientEvent::MessageResent { old_id: "a".into(), new_id: "b".into() };
    assert_eq!(interface_event(&resent).1, r#"{"new_id":"b","old_id":"a"}"#);
    let deleted = ClientEvent::MessageDeleted { id: "a".into() };
    assert_eq!(interface_event(&deleted), ("hush://deleted", r#"{"id":"a"}"#.to_string()));
    let receipt = ClientEvent::Receipt { id: "a".into(), state: "read".into(), at: 9 };
    assert_eq!(interface_event(&receipt).1, r#"{"at":9,"id":"a","state":"read"}"#);
    let changed = ClientEvent::IdentityChanged {
        id: "a".into(),
        contact: "bob".into(),
        known: "K".into(),
        published: "P".into(),
        at: 1,
    };
    let (name, text) = interface_event(&changed);
    assert_eq!(name, "hush://identity");
    assert_eq!(text, r#"{"at":1,"contact":"bob","id":"a","known":"K","published":"P"}"#);
}

#[test]
fn the_desktop_shows_what_it_should() {
    assert_eq!(alert_channel("sound"), "hush-messages-sound");
    assert_eq!(alert_channel("vibrate"), "hush-messages-vibrate");
    assert_eq!(alert_channel("none"), "hush-messages-silent");
    assert_eq!(preview("image", "data:image/png"), "📷");
    assert_eq!(preview("text", "corto"), "corto");
    assert_eq!(preview("text", &"ñ".repeat(121)), "ñ".repeat(120));
    assert_eq!(profile_name(None), "hush");
    assert_eq!(profile_name(Some("")), "hush");
    assert_eq!(profile_name(Some("work")), "work");
    assert_eq!(profile_file("work"), "work.db");
    assert_eq!(lock_file("work"), "work.lock");
    assert_eq!(idle_seconds(5_999, 1_000), 4);
    assert_eq!(idle_seconds(1_000, u32::MAX - 999), 2);
    assert!(reports_disconnection(2, 2));
    assert!(!reports_disconnection(1, 2));
    assert_eq!(wide("aé📷"), vec![97, 233, 0xd83d, 0xdcf7, 0]);
    let expected: Vec<u16> = "Hush".encode_utf16().chain(std::iter::once(0)).collect();
    assert_eq!(wide("Hush"), expected);
}

#[test]
fn the_log_moves_to_a_new_file_when_the_day_changes() {
    assert_eq!(next_log("hush.log", None, "2026-08-02"), Some("hush.log.2026-08-02".to_string()));
    assert_eq!(
        next_log("hush.log", Some("2026-08-02"), "2026-08-03"),
        Some("hush.log.2026-08-03".to_string())
    );
    // Same day again: keeps appending instead of truncating.
    assert_eq!(next_log("hush.log", Some("2026-08-03"), "2026-08-03"), None);
}

#[test]
fn only_rotated_logs_are_deleted() {
    let day = 24 * 60 * 60;
    let now = 100 * day;
    let old = 69 * day;
    assert!(should_prune("hush.log", "hush.log.2026-08-02", old, now, 30));
    assert!(!should_prune("hush.log", "hush.log.2026-08-02", 70 * day, now, 30));
    assert!(!should_prune("hush.log", "hush.log.backup", old, now, 30));
    assert!(!should_prune("hush.log", "hush.log", old, now, 30));
    assert!(!should_prune("hush.log", "hush.log.2026-08-02.gz", old, now, 30));
    assert!(!should_prune("hush.log", "other.log.2026-08-02", old, now, 30));
    assert!(!should_prune("hush.log", "hush.log.2026-08-02", old, now, 101));
    assert!(!should_prune("hush.log", "hush.log.2026-08-02", old, now, u64::MAX));
    assert_eq!(keep_days(None), Some(30));
    assert_eq!(keep_days(Some(" 7 ")), Some(7));
    assert_eq!(keep_days(Some("soon")), Some(30));
    assert_eq!(keep_days(Some("0")), None);
}

fn env() -> MailEnv {
    MailEnv {
        host: Some("smtp.example.com".into()),
        port: None,
        from: None,
        user: None,
        pass: None,
        starttls: None,
        tls: None,
    }
}

#[test]
fn mail_is_configured_by_the_environment() {
    let config = MailConfig::from_env(&env()).unwrap();
    assert_eq!(config.port, 25);
    assert_eq!(config.from, "Hush <hush@localhost>");
    assert!(!config_missing(&env()));
    let unset = MailEnv { host: None, ..env() };
    assert!(config_missing(&unset));
    let full = MailEnv {
        port: Some("465".into()),
        from: Some("Relay <relay@example.com>".into()),
        tls: Some("1".into()),
        starttls: Some("yes".into()),
        ..env()
    };
    let config = MailConfig::from_env(&full).unwrap();
    assert_eq!(config.port, 465);
    assert_eq!(config.from, "Relay <relay@example.com>");
    assert!(config.tls && !config.starttls);
    let odd = MailEnv { port: Some("70000".into()), ..env() };
    assert_eq!(MailConfig::from_env(&odd).unwrap().port, 25);
}

#[test]
fn credentials_never_cross_the_network_in_the_clear() {
    let clear = MailEnv { user: Some("u".into()), pass: Some("p".into()), ..env() };
    let config = MailConfig::from_env(&clear).unwrap();
    assert!(config.credentials_in_the_clear());
    assert!(matches!(
        config.send_verification("alice@example.com", "alice", "123456"),
        Err(MailFault::CredentialsInTheClear)
    ));
    let safe = MailConfig::from_env(&MailEnv { starttls: Some("1".into()), ..clear }).unwrap();
    let mail = match safe.send_password_reset("alice@example.com", "alice", "123456") {
        Ok(mail) => mail,
        Err(e) => panic!("{}", e.message()),
    };
    assert_eq!(mail.protection, Protection::StartTls);
    assert_eq!(mail.credentials, Some(("u".to_string(), "p".to_string())));
    assert_eq!(mail.subject, "Reset your Hush password");
    assert!(mail.body.starts_with("Hi alice,\n\nYour password reset code is: 123456\n\n"));
}

#[test]
fn mail_goes_to_addresses_only() {
    let config = MailConfig::from_env(&env()).unwrap();
    assert!(matches!(
        config.send_verification("no address", "alice", "1"),
        Err(MailFault::BadRecipient)
    ));
    let odd = MailConfig::from_env(&MailEnv { from: Some("nobody".into()), ..env() }).unwrap();
    assert!(matches!(odd.send_verification("a@b.c", "alice", "1"), Err(MailFault::BadSender)));
    let mail = match config.send_verification("alice@example.com", "alice", "123456") {
        Ok(mail) => mail,
        Err(e) => panic!("{}", e.message()),
    };
    assert_eq!(mail.protection, Protection::Nothing);
    assert_eq!(mail.credentials, None);
    assert_eq!(
        mail.body,
        "Hi alice,\n\nYour code to confirm the account is: 123456\n\nIt expires in 24 hours. \
         If you did not create this account, ignore this message.\n"
    );
}

#[test]
fn a_public_deployment_is_warned() {
    let none = None;
    assert_eq!(startup_warnings("127.0.0.1:8080", true, &none, Some("debug")), vec![]);
    assert_eq!(startup_warnings("localhost:1", true, &none, None), vec![]);
    assert_eq!(
        startup_warnings("0.0.0.0:8080", true, &none, Some("info,hush=debug")),
        vec![StartupWarning::EchoCode, StartupWarning::NoMail, StartupWarning::DebugLog]
    );
    let clear = MailEnv { user: Some("u".into()), pass: Some("p".into()), ..env() };
    let mail = MailConfig::from_env(&clear);
    assert_eq!(
        startup_warnings("0.0.0.0:8080", false, &mail, Some("info")),
        vec![StartupWarning::MailInTheClear]
    );
}

#[test]
fn codes_and_tokens_are_drawn() {
    assert_eq!(six_digits(0), "000000");
    assert_eq!(six_digits(42), "000042");
    assert_eq!(six_digits(999_999), "999999");
    let code = new_code();
    assert_eq!(code.len(), 6);
    assert!(code.chars().all(|c| c.is_ascii_digit()));
    let token = new_token();
    assert_eq!(token.len(), 43);
    assert!(token.chars().all(|c| c.is_ascii_alphanumeric() || c == '-' || c == '_'));
    assert_ne!(token, new_token());
    assert_ne!(hash_password("secreta").unwrap(), hash_password("secreta").unwrap());
}

#[test]
fn texts_are_read_and_written() {
    assert!(constant_time_eq("123456", "123456"));
    assert!(!constant_time_eq("123456", "123457"));
    assert!(!constant_time_eq("123456", "12345"));
    assert_eq!(parse_u64("+7"), Some(7));
    assert_eq!(parse_u64(""), None);
    assert_eq!(parse_u64("-1"), None);
    assert_eq!(parse_i64("-9223372036854775808"), Some(i64::MIN));
    assert_eq!(parse_i64("9223372036854775808"), None);
    assert_eq!(write_decimal(u64::MAX), "18446744073709551615");
    assert_eq!(write_signed(i64::MIN), "-9223372036854775808");
    assert_eq!(split("a,,b", ','), vec!["a".to_string(), String::new(), "b".to_string()]);
    assert_eq!(trim("\u{2003} x \n"), "x");
}

/// White space is what the standard library takes for it.
#[test]
fn every_white_space_is_trimmed_and_nothing_else() {
    for c in '\u{0}'..='\u{10ffff}' {
        assert_eq!(trim(&c.to_string()).is_empty(), c.is_whitespace(), "{c:?}");
    }
}
