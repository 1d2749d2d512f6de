use base64::engine::general_purpose::STANDARD;
use base64::Engine;
use hush::export_json::{read_export, write_export, Export, ExportedContact, ExportedMessage};
use hush::transfer::{export, export_at, import, open_contents, usual_cost, Cost, TransferError};

fn sample() -> Export {
    Export {
        username: "alice".into(),
        exported_at: 1_700_000_000_000,
        messages: vec![ExportedMessage {
            id: "m1".into(),
            contact: "bob".into(),
            mine: true,
            kind: "text".into(),
            text: "hola bob".into(),
            state: "read".into(),
            delivered_at: Some(2),
            read_at: Some(3),
            created_at: 1,
        }],
        contacts: vec![ExportedContact {
            username: "bob".into(),
            alias: "Bob".into(),
            avatar: None,
        }],
    }
}

fn cheap() -> Cost {
    Cost { memory_kib: 64, passes: 1, lanes: 2 }
}

/// The sample in a file, at a cost that leaves time to open it several times.
fn sealed_sample() -> Vec<u8> {
    let text = write_export(&sample());
    let (salt, nonce) = (vec![1u8; 16], vec![2u8; 24]);
    export_at(text.as_bytes(), "una-contraseña-larga", &salt, &nonce, &cheap()).unwrap()
}

#[test]
fn a_file_opens_with_its_password_and_with_nothing_else() {
    let exported = export(&sample(), "una-contraseña-larga").unwrap();
    // The point of the exercise: none of it is readable as it stands.
    assert!(!String::from_utf8_lossy(&exported).contains("hola bob"));
    assert_eq!(exported.len(), 69 + write_export(&sample()).len() + 16);

    // From here on at a cost that leaves time to open it several times.
    let sealed = sealed_sample();
    assert!(!String::from_utf8_lossy(&sealed).contains("hola bob"));

    let opened = match import(&sealed, "una-contraseña-larga") {
        Ok(opened) => opened,
        Err(e) => panic!("{}", e.message()),
    };
    assert_eq!(opened.messages.len(), 1);
    assert_eq!(opened.messages[0].text, "hola bob");
    assert_eq!(opened.contacts[0].alias, "Bob");

    assert_eq!(
        import(&sealed, "una-contraseña-largo").err().unwrap().message(),
        "import_wrong_password"
    );
}

/// The sample as it was exported once, at the usual cost.
const EXPORTED: [&str; 6] = [
    "SFVTSC1DSEFULUVYUE9SVAEAAAEACAAAAAEAAAABAQEBAQEBAQEBAQEBAQEBAgICAgICAgICAgIC",
    "AgICAgICAgICAgIC1d5Q8NOXrwmuVIfhT2fXteajKlCkh7hCQZw+DnuDPW/ImpmpvOzpxBT45Tl9",
    "AT0RxLbhUZ3mTTbXLD0XgY83+kZQT5gKVy6e+x4dnZ9kxIJUNkEUmI+vRhWgm1EDyUYiw8y914xc",
    "uJOBJIiCWrOuNFoVEYK++fi38Nc5bFthEwrukDjaEv5CbIWQPjztGJL6DojMo7h+vWKOAx0LDZj3",
    "zOn0Jt+ttMy/BOKTzszPfVvq/WaW19N6/d/0olX68mQkEb5u1uw0Mj2O0dYti/Acl41ckNJ7m2rb",
    "+uLpm2p9h+U7AwTknK8yNztSgkWd0nVTNeeZ7ahVJ0/pjddRQdbeAuQh691y0rNEuvWWhQ==",
];

/// What was exported stays readable.
#[test]
fn a_file_of_the_usual_cost_opens() {
    let file = STANDARD.decode(EXPORTED.concat()).unwrap();
    let opened = match import(&file, "una-contraseña-larga") {
        Ok(opened) => opened,
        Err(e) => panic!("{}", e.message()),
    };
    assert_eq!(write_export(&opened), write_export(&sample()));
}

#[test]
fn a_damaged_file_looks_like_a_wrong_password() {
    let text = write_export(&sample());
    let sealed =
        export_at(text.as_bytes(), "0123456789", &vec![1u8; 16], &vec![2u8; 24], &cheap()).unwrap();
    for at in [21, 30, 46, 70, sealed.len() - 1] {
        let mut damaged = sealed.clone();
        damaged[at] ^= 1;
        let fault = import(&damaged, "0123456789").err().unwrap();
        assert!(
            fault == TransferError::WrongPassword || fault == TransferError::NotAnExport,
            "byte {at}: {}",
            fault.message()
        );
    }
}

#[test]
fn the_cost_cannot_be_edited_down() {
    let mut sealed = export(&sample(), "una-contraseña-larga").unwrap();
    assert!(!String::from_utf8_lossy(&sealed).contains("hola bob"));
    assert_eq!(&sealed[17..21], &65536u32.to_le_bytes());
    // Rewrite the memory cost to the smallest Argon2 accepts. The tag covers
    // the header, so this must fail rather than crack cheaply.
    sealed[17..21].copy_from_slice(&8u32.to_le_bytes());
    assert!(import(&sealed, "una-contraseña-larga").is_err());
}

#[test]
fn rubbish_is_refused_before_any_work_is_done() {
    assert_eq!(
        import(b"no soy un export", "x").err().unwrap().message(),
        "import_not_an_export"
    );
    assert_eq!(
        export(&sample(), "corta").unwrap_err().message(),
        "export_password_too_short"
    );
}

#[test]
fn the_header_says_what_it_cost() {
    let cost = usual_cost();
    assert_eq!((cost.memory_kib, cost.passes, cost.lanes), (65536, 8, 1));
    let file = export_at(b"contents", "0123456789", &vec![1u8; 16], &vec![2u8; 24], &cheap()).unwrap();
    assert_eq!(&file[..16], b"HUSH-CHAT-EXPORT");
    assert_eq!(file[16], 1);
    assert_eq!(&file[17..21], &64u32.to_le_bytes());
    assert_eq!(&file[21..25], &1u32.to_le_bytes());
    assert_eq!(&file[25..29], &2u32.to_le_bytes());
    assert_eq!(&file[29..45], &[1u8; 16]);
    assert_eq!(&file[45..69], &[2u8; 24]);
    assert_eq!(file.len(), 69 + 8 + 16);
    assert_eq!(open_contents(&file, "0123456789"), Ok(b"contents".to_vec()));
}

fn header(version: u8, memory: u32, passes: u32, lanes: u32) -> Vec<u8> {
    let mut file = b"HUSH-CHAT-EXPORT".to_vec();
    file.push(version);
    file.extend_from_slice(&memory.to_le_bytes());
    file.extend_from_slice(&passes.to_le_bytes());
    file.extend_from_slice(&lanes.to_le_bytes());
    file.extend_from_slice(&[0u8; 40]);
    file
}

#[test]
fn files_that_ask_for_too_much_are_none_of_ours() {
    let refused = |file: Vec<u8>| open_contents(&file, "x").unwrap_err();
    assert_eq!(refused(header(2, 8, 1, 1)), TransferError::UnsupportedVersion);
    assert_eq!(refused(header(1, 1024 * 1024 + 1, 1, 1)), TransferError::NotAnExport);
    assert_eq!(refused(header(1, 8, 0, 1)), TransferError::NotAnExport);
    assert_eq!(refused(header(1, 8, 65, 1)), TransferError::NotAnExport);
    assert_eq!(refused(header(1, 8, 1, 0)), TransferError::NotAnExport);
    assert_eq!(refused(header(1, 8, 1, 17)), TransferError::NotAnExport);
    assert_eq!(refused(header(1, 8, 1, 16)), TransferError::KeyDerivation);
    assert_eq!(refused(header(1, 7, 1, 1)), TransferError::KeyDerivation);
    assert_eq!(refused(header(1, 8, 1, 1)), TransferError::WrongPassword);
    assert_eq!(refused(header(1, 8, 1, 1)[..68].to_vec()), TransferError::NotAnExport);
}

#[test]
fn an_export_reads_back_as_it_was_written() {
    let text = write_export(&sample());
    let again = read_export(&text).unwrap();
    assert_eq!(again.username, "alice");
    assert_eq!(again.exported_at, 1_700_000_000_000);
    assert_eq!(again.messages[0].delivered_at, Some(2));
    assert_eq!(again.messages[0].read_at, Some(3));
    assert_eq!(again.messages[0].state, "read");
    assert!(again.messages[0].mine);
    assert_eq!(again.contacts[0].avatar, None);
}

#[test]
fn what_an_export_leaves_out_has_a_default() {
    let text = r#"{"exported_at":5,"messages":[{"id":"a","contact":"b","mine":true,"kind":"text","text":"t","created_at":1}]}"#;
    let read = read_export(text).unwrap();
    assert_eq!(read.username, "");
    assert_eq!(read.messages[0].state, "sent");
    assert_eq!(read.messages[0].delivered_at, None);
    assert!(read.contacts.is_empty());
    let named = r#"{"exported_at":5,"messages":[],"contacts":[{"username":"bob"}]}"#;
    assert_eq!(read_export(named).unwrap().contacts[0].alias, "");
    assert!(read_export(r#"{"messages":[]}"#).is_none());
    assert!(read_export(r#"{"exported_at":5}"#).is_none());
    assert!(read_export(r#"{"exported_at":5,"messages":[{}]}"#).is_none());
    assert!(read_export("[]").is_none());
    assert!(read_export("{").is_none());
}
