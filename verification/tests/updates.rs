use hush::server::errors::ApiError;
use hush::server::requests::{body_limit, client_ip, echoed_code, prefers_spanish};
use hush::server::updates::{
    installer_version, manifest, may_download, newest_installer, offered, parse_version,
    public_base, update_dir, FoundFile,
};

#[test]
fn only_our_own_installer_names_are_accepted() {
    assert_eq!(installer_version("Hush_1.0.2_x64-setup.exe"), Some((1, 0, 2)));
    assert_eq!(installer_version("Hush_10.20.30_x64-setup.exe"), Some((10, 20, 30)));

    // Anything else must not resolve to a file: the name becomes a path.
    for name in [
        "hush.sqlite3",
        "../hush.sqlite3",
        "Hush_1.0.2_x64-setup.exe.bak",
        r"Hush_../..\1.0.2_x64-setup.exe",
        "Hush_1.0_x64-setup.exe",
        "Hush_1.0.2.3_x64-setup.exe",
        "Hush__x64-setup.exe",
    ] {
        assert_eq!(installer_version(name), None, "{name} should be refused");
    }
}

fn found(name: &str, signed: bool) -> FoundFile {
    FoundFile { name: name.to_string(), signed }
}

#[test]
fn the_newest_build_in_the_folder_wins() {
    let mut files = Vec::new();
    for version in ["1.0.2", "1.0.10", "1.1.0"] {
        files.push(found(&format!("Hush_{version}_x64-setup.exe"), true));
    }
    // Unsigned builds are ignored: the client would refuse them anyway.
    files.push(found("Hush_2.0.0_x64-setup.exe", false));

    let (version, at) = newest_installer(&files).unwrap();
    assert_eq!(version, (1, 1, 0));
    assert_eq!(files[at].name, "Hush_1.1.0_x64-setup.exe");
}

#[test]
fn versions_are_three_numbers() {
    assert_eq!(parse_version("1.2.3"), Some((1, 2, 3)));
    assert_eq!(parse_version("+1.2.3"), Some((1, 2, 3)));
    assert_eq!(parse_version("1.2"), None);
    assert_eq!(parse_version("1.2.3.4"), None);
    assert_eq!(parse_version("1..3"), None);
    assert_eq!(parse_version("1.2.18446744073709551616"), None);
    assert_eq!(parse_version("1.2.18446744073709551615"), Some((1, 2, u64::MAX)));
}

#[test]
fn only_a_newer_build_is_offered() {
    let files = vec![found("Hush_1.1.0_x64-setup.exe", true)];
    assert_eq!(offered(false, "rubbish", &files), Ok(None));
    assert_eq!(offered(true, "rubbish", &files), Err(ApiError::InvalidVersion));
    assert_eq!(offered(true, "v1.0.9", &files), Ok(Some(((1, 1, 0), 0))));
    assert_eq!(offered(true, "1.1.0", &files), Ok(None));
    assert_eq!(offered(true, "2.0.0", &files), Ok(None));
    assert_eq!(offered(true, "1.0.0", &Vec::new()), Ok(None));
}

#[test]
fn the_manifest_says_where_the_installer_is() {
    let told = manifest((1, 20, 3), "Hush_1.20.3_x64-setup.exe", "https://hush.example", " sig\n", Some(" notes "));
    assert_eq!(told.version, "1.20.3");
    assert_eq!(told.url, "https://hush.example/v1/update/download/Hush_1.20.3_x64-setup.exe");
    assert_eq!(told.signature, "sig");
    assert_eq!(told.notes, "notes");
    assert_eq!(manifest((0, 0, 0), "f", "b", "s", None).notes, "");
}

#[test]
fn downloads_stay_in_the_folder() {
    assert!(may_download("Hush_1.0.2_x64-setup.exe"));
    assert!(may_download("Hush_1.0.2_x64-setup.exe.sig"));
    assert!(!may_download("Hush_1.0.2_x64-setup.exe.sig.sig"));
    assert!(!may_download("../hush.sqlite3"));
    assert!(!may_download("notes.txt"));
}

#[test]
fn the_base_comes_from_the_request_unless_configured() {
    assert_eq!(public_base(Some(" https://a.example// "), Some("b"), None), "https://a.example");
    assert_eq!(public_base(Some(" / "), Some("b.example"), None), "https://b.example");
    assert_eq!(public_base(None, Some("127.0.0.1:9"), None), "http://127.0.0.1:9");
    assert_eq!(public_base(None, Some("localhost"), None), "http://localhost");
    assert_eq!(public_base(None, Some("localhost"), Some("https")), "https://localhost");
    assert_eq!(public_base(None, None, None), "http://127.0.0.1:8080");
}

#[test]
fn the_folder_has_to_be_named() {
    assert_eq!(update_dir(None), None);
    assert_eq!(update_dir(Some("  ")), None);
    assert_eq!(update_dir(Some(" /srv/updates ")), Some("/srv/updates".to_string()));
}

#[test]
fn the_forwarded_address_counts_only_behind_a_proxy() {
    assert_eq!(client_ip(Some("1"), Some(" 1.2.3.4 , 5.6.7.8"), Some("9.9.9.9")).0, "1.2.3.4");
    assert_eq!(client_ip(None, Some("1.2.3.4"), Some("9.9.9.9")).0, "9.9.9.9");
    assert_eq!(client_ip(Some("0"), Some("1.2.3.4"), Some("9.9.9.9")).0, "9.9.9.9");
    assert_eq!(client_ip(Some("1"), Some(" ,5.6.7.8"), Some("9.9.9.9")).0, "9.9.9.9");
    assert_eq!(client_ip(Some("1"), None, None).0, "unknown");
}

#[test]
fn what_a_request_says_of_itself() {
    assert!(prefers_spanish(Some("ES-es,en")));
    assert!(!prefers_spanish(Some("en,es")));
    assert!(!prefers_spanish(None));
    assert_eq!(body_limit("PUT", "/v1/messages/bob"), 15 * 1024 * 1024);
    assert_eq!(body_limit("DELETE", "/v1/messages/bob"), 256 * 1024);
    assert_eq!(body_limit("PUT", "/v1/keys"), 256 * 1024);
    assert_eq!(echoed_code(Some("1"), false, "123456"), Some("123456".to_string()));
    assert_eq!(echoed_code(Some("1"), true, "123456"), None);
    assert_eq!(echoed_code(None, false, "123456"), None);
}
