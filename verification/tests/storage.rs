use hush::archive::{ArchiveEntry, ArchiveError, ArchiveKey};
use hush::db::StoredMessage;
use base64::engine::general_purpose::STANDARD;
use base64::Engine;
use hush::keystore::{key_missing_message, unwrap_key, wrap_key, DeviceKey, StorageError};

fn entry() -> ArchiveEntry {
    ArchiveEntry {
        id: "1".into(),
        contact: "bob".into(),
        mine: true,
        kind: "text".into(),
        text: "hola bob".into(),
        state: "sent".into(),
        created_at: 1234,
    }
}

#[test]
fn roundtrip_through_the_recovery_code() {
    let key = ArchiveKey::generate();
    let blob = key.encrypt_entry(&entry()).unwrap();
    assert!(!blob.contains("hola"), "el blob no debe filtrar el mensaje");

    // Another device restores from the printed code alone.
    let code = key.to_recovery_code();
    let restored = match ArchiveKey::from_recovery_code(&code) {
        Ok(key) => key,
        Err(e) => panic!("{}", e.message()),
    };
    let opened = match restored.decrypt_entry(&blob) {
        Ok(entry) => entry,
        Err(e) => panic!("{}", e.message()),
    };
    assert_eq!(opened.text, "hola bob");
}

#[test]
fn codes_survive_retyping() {
    let code = ArchiveKey::generate().to_recovery_code();
    let messy = format!(" {} ", code.to_lowercase().replace('-', " "));
    let a = match ArchiveKey::from_recovery_code(&messy) {
        Ok(key) => key.to_b64(),
        Err(e) => panic!("{}", e.message()),
    };
    let b = match ArchiveKey::from_recovery_code(&code) {
        Ok(key) => key.to_b64(),
        Err(e) => panic!("{}", e.message()),
    };
    assert_eq!(a, b);
}

#[test]
fn wrong_key_cannot_read_the_archive() {
    let blob = ArchiveKey::generate().encrypt_entry(&entry()).unwrap();
    assert!(ArchiveKey::generate().decrypt_entry(&blob).is_err());
    assert!(ArchiveKey::from_recovery_code("not-a-key").is_err());
}

#[test]
fn a_recovery_code_is_grouped_base32() {
    let key = ArchiveKey([0u8; 32]);
    assert_eq!(
        key.to_recovery_code(),
        "AAAA-AAAA-AAAA-AAAA-AAAA-AAAA-AAAA-AAAA-AAAA-AAAA-AAAA-AAAA-AAAA"
    );
    assert_eq!(key.to_b64(), "AAAAAAAAAAAAAAAAAAAAAAAAAAAAAAAAAAAAAAAAAAA=");
    let again = ArchiveKey::from_b64(&key.to_b64());
    assert!(matches!(again, Ok(k) if k.0 == [0u8; 32]));
    assert!(matches!(ArchiveKey::from_b64("AAAA"), Err(ArchiveError::InvalidRecoveryKey)));
    assert!(matches!(ArchiveKey::from_b64("!"), Err(ArchiveError::InvalidRecoveryKey)));
    let long = "A".repeat(5000);
    assert!(matches!(
        ArchiveKey::from_recovery_code(&long),
        Err(ArchiveError::InvalidRecoveryKey)
    ));
}

#[test]
fn what_is_wrong_with_an_entry_is_told_apart() {
    let key = ArchiveKey([1u8; 32]);
    assert!(matches!(key.decrypt_entry("###"), Err(ArchiveError::CorruptEntry)));
    assert!(matches!(key.decrypt_entry("AAAA"), Err(ArchiveError::CorruptEntry)));
    let blob = ArchiveKey([2u8; 32]).encrypt_entry(&entry()).unwrap();
    assert!(matches!(key.decrypt_entry(&blob), Err(ArchiveError::WrongRecoveryKey)));
    // Authentic, but not a message.
    let other = DeviceKey([1u8; 32]).seal_str("[1, 2]").unwrap();
    assert!(matches!(key.decrypt_entry(&other), Err(ArchiveError::NotAMessage)));
}

#[test]
fn entries_from_before_delivery_states_count_as_sent() {
    let key = ArchiveKey([1u8; 32]);
    let old = r#"{"id":"7","contact":"bob","mine":false,"kind":"text","text":"hola","created_at":-5}"#;
    let blob = DeviceKey([1u8; 32]).seal_str(old).unwrap();
    let entry = match key.decrypt_entry(&blob) {
        Ok(entry) => entry,
        Err(e) => panic!("{}", e.message()),
    };
    assert_eq!(entry.state, "sent");
    assert_eq!(entry.created_at, -5);
    let stored = StoredMessage::from(entry);
    assert_eq!(stored.id, "7");
    assert_eq!(ArchiveEntry::from(&stored).text, "hola");
}

#[test]
fn sealed_values_need_the_right_key() {
    let key = DeviceKey::for_test();
    let sealed = key.seal_str("hola bob").unwrap();
    assert!(!sealed.contains("hola"));
    assert_eq!(key.open_str(&sealed).unwrap(), "hola bob");

    let other = DeviceKey([9u8; 32]);
    assert!(other.open(&sealed).is_err());
}

#[test]
fn sealing_the_same_twice_gives_two_different_values() {
    let key = DeviceKey::for_test();
    assert_ne!(key.seal_str("x").unwrap(), key.seal_str("x").unwrap());
}

#[test]
fn what_is_wrong_with_a_value_is_told_apart() {
    let key = DeviceKey::for_test();
    assert_eq!(key.open("not base64!"), Err(StorageError::Corrupt));
    assert_eq!(key.open("AAAA"), Err(StorageError::Corrupt));
    let foreign = DeviceKey([9u8; 32]).seal(b"x").unwrap();
    assert_eq!(key.open(&foreign), Err(StorageError::WrongKey));
    assert!(matches!(DeviceKey::from_file(&vec![0u8; 31]), Err(StorageError::CorruptKey)));
    assert!(matches!(DeviceKey::from_file(&vec![5u8; 32]), Ok(k) if k.0 == [5u8; 32]));
}

#[test]
fn without_protection_the_key_is_stored_as_it_is() {
    let key = [3u8; 32];
    assert_eq!(unwrap_key(&wrap_key(&key)), key.to_vec());
}

#[test]
fn a_sealed_value_holds_a_nonce_and_a_tag_besides() {
    let key = DeviceKey::for_test();
    for plain in [&b""[..], &b"hola"[..], &[255u8, 0, 254][..]] {
        let sealed = key.seal(plain).unwrap();
        assert_eq!(STANDARD.decode(&sealed).unwrap().len(), 24 + plain.len() + 16);
        assert_eq!(key.open(&sealed).unwrap(), plain);
    }
}

#[test]
fn a_missing_key_is_named() {
    assert_eq!(
        key_missing_message("a.db", "a.key"),
        "the local data in a.db is encrypted with a device key that is missing (a.key). Move that \
         folder aside to start over; the history can be restored with the recovery key."
    );
}
