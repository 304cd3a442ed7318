use wolfpack::client::{DiscoveryClient, RelayClient};
use wolfpack::daemon::http_api::{
    authorize, check_origin, fingerprint, pairing_status, validate_token, ApiDenial,
};
use wolfpack::daemon::ipc::{
    command_of_words, find_tab, parse_command, reply_error, reply_sent, reply_status, reply_tabs,
    IpcCommand,
};
use wolfpack::daemon::{ApiTokenManager, PairingResponse, PairingResult};
use wolfpack::events::VectorClock;
use wolfpack::profile::mozlz4::{decode_mozlz4, encode_mozlz4, read_mozlz4_header, Mozlz4Error};
use wolfpack::state::PendingTab;
use wolfpack::text::{parse_i64, parse_u32_text, same_text, starts_with, to_chars};

#[test]
fn origins() {
    assert_eq!(check_origin(None), Ok(()));
    assert_eq!(check_origin(Some("moz-extension://abc")), Ok(()));
    assert_eq!(check_origin(Some("chrome-extension://abc")), Ok(()));
    assert_eq!(check_origin(Some("moz-extension://")), Ok(()));
    assert_eq!(check_origin(Some("https://evil.example")), Err(ApiDenial::Forbidden));
    assert_eq!(check_origin(Some("moz-extension:/")), Err(ApiDenial::Forbidden));
    assert_eq!(check_origin(Some("")), Err(ApiDenial::Forbidden));
}

#[test]
fn authorization() {
    let manager = ApiTokenManager::load_or_create("/d", Some("secret"));
    assert_eq!(validate_token(Some("secret"), &manager), Ok(()));
    assert_eq!(validate_token(Some("Secret"), &manager), Err(ApiDenial::Unauthorized));
    assert_eq!(validate_token(None, &manager), Err(ApiDenial::Unauthorized));

    assert_eq!(authorize(None, Some("secret"), &manager), Ok(()));
    assert_eq!(authorize(Some("moz-extension://x"), Some("secret"), &manager), Ok(()));
    assert_eq!(authorize(None, Some("wrong"), &manager), Err(ApiDenial::Unauthorized));
    assert_eq!(authorize(None, None, &manager), Err(ApiDenial::Unauthorized));
    // the origin is judged first
    assert_eq!(authorize(Some("https://a"), Some("secret"), &manager), Err(ApiDenial::Forbidden));
    assert_eq!(authorize(Some("https://a"), None, &manager), Err(ApiDenial::Forbidden));

    assert_eq!(ApiDenial::Unauthorized.status_code(), 401);
    assert_eq!(ApiDenial::Forbidden.status_code(), 403);
    assert_eq!(ApiDenial::Internal.status_code(), 500);
}

#[test]
fn pairing_outcomes_in_words() {
    let response = PairingResponse {
        device_id: "i".to_string(),
        device_name: "n".to_string(),
        public_key: "k".to_string(),
    };
    assert_eq!(pairing_status(&PairingResult::Accepted(response)), "accepted");
    assert_eq!(pairing_status(&PairingResult::Rejected), "rejected");
    assert_eq!(pairing_status(&PairingResult::Expired), "expired");
    assert_eq!(pairing_status(&PairingResult::InvalidCode), "invalid_code");
}

#[test]
fn fingerprints() {
    assert_eq!(fingerprint("0123456789abcdef"), "01234567...89abcdef");
    assert_eq!(
        fingerprint("8520f0098930a754748b7ddcb43ef75a0dbf3a0d26381af4eba4a98eaa9b4e6a"),
        "8520f009...aa9b4e6a"
    );
    assert_eq!(fingerprint("0123456789abcde"), "0123456789abcde");
    assert_eq!(fingerprint(""), "");
}

#[test]
fn commands_of_the_control_socket() {
    assert!(matches!(parse_command("status"), IpcCommand::Status));
    assert!(matches!(parse_command("  peers \n"), IpcCommand::Peers));
    assert!(matches!(parse_command("tabs"), IpcCommand::Tabs));
    match parse_command("send laptop https://example.com") {
        IpcCommand::Send { device, url, title } => {
            assert_eq!(device, "laptop");
            assert_eq!(url, "https://example.com");
            assert_eq!(title, None);
        }
        other => panic!("unexpected {other:?}"),
    }
    match parse_command("send laptop https://example.com A   long\ttitle ") {
        IpcCommand::Send { title, .. } => assert_eq!(title.as_deref(), Some("A long title")),
        other => panic!("unexpected {other:?}"),
    }
    match parse_command("open 1234 extra") {
        IpcCommand::Open { tab_id } => assert_eq!(tab_id, "1234"),
        other => panic!("unexpected {other:?}"),
    }
    let invalid = |line: &str| match parse_command(line) {
        IpcCommand::Invalid { reply } => reply,
        other => panic!("unexpected {other:?}"),
    };
    assert_eq!(invalid(""), "ERROR: Empty command");
    assert_eq!(invalid("   "), "ERROR: Empty command");
    assert_eq!(invalid("send laptop"), "ERROR: Usage: send <device> <url> [title]");
    assert_eq!(invalid("open"), "ERROR: Usage: open <tab_id>");
    assert_eq!(invalid("dance now"), "ERROR: Unknown command: dance");
    assert_eq!(invalid("STATUS"), "ERROR: Unknown command: STATUS");

    let words = vec!["send".to_string(), "d".to_string(), "u".to_string(), "t".to_string()];
    match command_of_words(&words) {
        IpcCommand::Send { title, .. } => assert_eq!(title.as_deref(), Some("t")),
        other => panic!("unexpected {other:?}"),
    }
}

fn tab(id: &str, url: &str, from: &str) -> PendingTab {
    PendingTab {
        id: id.to_string(),
        url: url.to_string(),
        title: None,
        from_device: from.to_string(),
        sent_at: 0,
    }
}

#[test]
fn replies_of_the_control_socket() {
    assert_eq!(reply_status("dev-1", 0), "OK: Device dev-1 - 0 peers connected");
    assert_eq!(reply_status("dev-1", 12), "OK: Device dev-1 - 12 peers connected");
    assert_eq!(reply_tabs(&[]), "OK: No pending tabs");
    assert_eq!(
        reply_tabs(&[tab("1", "https://a", "x"), tab("2", "https://b", "y")]),
        "OK:\n1: https://a (from x)\n2: https://b (from y)"
    );
    assert_eq!(reply_sent("laptop"), "OK: Tab queued for laptop");
    assert_eq!(reply_error("Tab not found"), "ERROR: Tab not found");

    let tabs = vec![tab("1", "https://a", "x"), tab("2", "https://b", "y")];
    assert_eq!(find_tab(&tabs, "2").unwrap().url, "https://b");
    assert!(find_tab(&tabs, "3").is_none());
    assert!(find_tab(&[], "1").is_none());
}

#[test]
fn framed_files() {
    let data = b"Hello, wolfpack! This is a test of the mozLz4 compression.";
    let framed = encode_mozlz4(data);
    assert_eq!(&framed[..8], b"mozLz40\0");
    assert_eq!(&framed[8..12], &(data.len() as u32).to_le_bytes());
    let frame = read_mozlz4_header(&framed).unwrap();
    assert_eq!(frame.decompressed_size as usize, data.len());
    assert_eq!(frame.block, framed[12..].to_vec());
    assert_eq!(
        lz4_flex::decompress(&frame.block, frame.decompressed_size as usize).unwrap(),
        data
    );

    assert!(matches!(read_mozlz4_header(b"mozLz40\0\x01\x00\x00"), Err(Mozlz4Error::TooShort)));
    assert!(matches!(read_mozlz4_header(b""), Err(Mozlz4Error::TooShort)));
    assert!(matches!(
        read_mozlz4_header(b"mozLz41\0\x01\x00\x00\x00"),
        Err(Mozlz4Error::BadMagic)
    ));
    let empty = read_mozlz4_header(b"mozLz40\0\x04\x03\x02\x01").unwrap();
    assert_eq!(empty.decompressed_size, 0x01020304);
    assert!(empty.block.is_empty());
}

#[test]
fn clients_keep_their_url() {
    assert_eq!(DiscoveryClient::new("https://d.example".to_string()).base_url(), "https://d.example");
    assert_eq!(RelayClient::new("https://r.example".to_string()).base_url(), "https://r.example");
}

#[test]
fn text_helpers() {
    assert!(same_text("abc", &"abc".to_string()));
    assert!(!same_text("abc", &"abd".to_string()));
    assert!(starts_with("abcdef", "abc"));
    assert!(starts_with("abc", ""));
    assert!(starts_with("abc", "abc"));
    assert!(!starts_with("ab", "abc"));
    assert!(!starts_with("xbc", "abc"));
    assert_eq!(to_chars("héllo"), vec!['h', 'é', 'l', 'l', 'o']);
    assert_eq!(parse_u32_text("0"), Some(0));
    assert_eq!(parse_u32_text("007"), Some(7));
    assert_eq!(parse_u32_text("+12"), Some(12));
    assert_eq!(parse_u32_text("4294967295"), Some(u32::MAX));
    assert_eq!(parse_u32_text("4294967296"), None);
    assert_eq!(parse_u32_text("99999999999999999999999"), None);
    assert_eq!(parse_u32_text("-1"), None);
    assert_eq!(parse_u32_text(""), None);
    assert_eq!(parse_u32_text("+"), None);
    assert_eq!(parse_u32_text("1 "), None);
    assert_eq!(parse_i64("-0"), Some(0));
    assert_eq!(parse_i64("+0"), Some(0));
    assert_eq!(parse_i64("--1"), None);
    for text in ["0", "12", "-12", "+12", "", "x", "9223372036854775807", "-9223372036854775808",
        "9223372036854775808", "-9223372036854775809", "00012"]
    {
        assert_eq!(parse_i64(text), text.parse::<i64>().ok(), "{text}");
        assert_eq!(parse_u32_text(text), text.parse::<u32>().ok(), "{text}");
    }
}

#[test]
fn test_serialization() {
    let mut clock = VectorClock::new();
    clock.set("device-a", 5);
    clock.set("device-b", 10);

    // the clock travels as a map from device to counter
    let mut object = serde_json::Map::new();
    for (device, counter) in clock.entries() {
        object.insert(device, serde_json::Value::from(counter));
    }
    let json = serde_json::to_string(&object).unwrap();
    let parsed: serde_json::Map<String, serde_json::Value> = serde_json::from_str(&json).unwrap();
    let mut map = wolfpack::table::StringMap::new();
    for (device, counter) in parsed {
        map.insert(device, counter.as_u64().unwrap());
    }
    let parsed: VectorClock = map.into();

    assert_eq!(clock, parsed);
    assert_eq!(VectorClock::from(clock.to_hashmap()), clock);
}

#[test]
fn test_mozlz4_roundtrip() {
    let original = b"Hello, wolfpack! This is a test of the mozLz4 compression.";
    let compressed = encode_mozlz4(original);
    let decompressed = decode_mozlz4(&compressed).unwrap();
    assert_eq!(decompressed, original);
    assert_ne!(compressed, original.to_vec());
}

#[test]
fn framed_files_read_back() {
    for data in [Vec::new(), vec![7u8], vec![0u8; 100_000], (0..=255u8).cycle().take(5000).collect()] {
        assert_eq!(decode_mozlz4(&encode_mozlz4(&data)), Ok(data));
    }
}

#[test]
fn broken_framed_files_are_refused() {
    assert_eq!(decode_mozlz4(b""), Err(Mozlz4Error::TooShort));
    assert_eq!(decode_mozlz4(b"mozLz40\0\x01\x00\x00"), Err(Mozlz4Error::TooShort));
    assert_eq!(decode_mozlz4(b"mozLz41\0\x01\x00\x00\x00\x10a"), Err(Mozlz4Error::BadMagic));
    // One literal byte, announced and present.
    assert_eq!(decode_mozlz4(b"mozLz40\0\x01\x00\x00\x00\x10a"), Ok(b"a".to_vec()));
    // The block holds more bytes than the header announces.
    assert_eq!(decode_mozlz4(b"mozLz40\0\x01\x00\x00\x00\x20ab"), Err(Mozlz4Error::Corrupt));
    // The block ends inside its literals.
    assert_eq!(decode_mozlz4(b"mozLz40\0\x08\x00\x00\x00\x40ab"), Err(Mozlz4Error::Corrupt));
    // A header without a block.
    assert_eq!(decode_mozlz4(b"mozLz40\0\x00\x00\x00\x00"), Err(Mozlz4Error::Corrupt));
    // A match that points before the start of the output.
    assert_eq!(
        decode_mozlz4(b"mozLz40\0\x20\x00\x00\x00\x10a\x05\x00\x10b"),
        Err(Mozlz4Error::Corrupt)
    );
    let mut long = b"mozLz40\0\x01\x00\x00\x00".to_vec();
    long.resize(12 + 16_843_010, 0xff);
    assert_eq!(decode_mozlz4(&long), Err(Mozlz4Error::BlockTooLong));
    // A truncated file.
    let framed = encode_mozlz4(&vec![3u8; 4000]);
    assert_eq!(decode_mozlz4(&framed[..framed.len() - 1]), Err(Mozlz4Error::Corrupt));
}

#[test]
fn patterns_cover_keys() {
    assert!(wolfpack::profile::prefs::pattern_matches("browser.*", "browser.startup.page"));
    assert!(wolfpack::profile::prefs::pattern_matches("browser.*", "browser."));
    assert!(!wolfpack::profile::prefs::pattern_matches("browser.*", "browser"));
    assert!(!wolfpack::profile::prefs::pattern_matches("browser.*", "extensions.ui"));
    assert!(wolfpack::profile::prefs::pattern_matches("*", "anything"));
    assert!(wolfpack::profile::prefs::pattern_matches("*", ""));
    assert!(wolfpack::profile::prefs::pattern_matches("privacy.donottrack", "privacy.donottrack"));
    assert!(!wolfpack::profile::prefs::pattern_matches("privacy.donottrack", "privacy.donottrack.x"));
    assert!(!wolfpack::profile::prefs::pattern_matches("", "a"));
    assert!(wolfpack::profile::prefs::pattern_matches("", ""));
}

#[test]
fn whitelist_keeps_covered_preferences() {
    let whitelist = vec!["browser.*".to_string(), "privacy.donottrack".to_string()];
    assert!(wolfpack::profile::prefs::is_whitelisted(&whitelist, "browser.tabs.warn"));
    assert!(wolfpack::profile::prefs::is_whitelisted(&whitelist, "privacy.donottrack"));
    assert!(!wolfpack::profile::prefs::is_whitelisted(&whitelist, "privacy.other"));
    assert!(!wolfpack::profile::prefs::is_whitelisted(&[], "browser.tabs.warn"));

    let mut prefs = wolfpack::table::StringMap::new();
    prefs.insert("browser.tabs.warn".to_string(), wolfpack::events::PrefValue::Bool(true));
    prefs.insert("network.proxy".to_string(), wolfpack::events::PrefValue::Int(1));
    prefs.insert(
        "privacy.donottrack".to_string(),
        wolfpack::events::PrefValue::String("on".to_string()),
    );
    let kept = wolfpack::profile::prefs::whitelisted_prefs(&prefs, &whitelist);
    assert_eq!(kept.len(), 2);
    assert_eq!(kept.key_at(0), "browser.tabs.warn");
    assert_eq!(kept.key_at(1), "privacy.donottrack");
    assert!(kept.get("network.proxy").is_none());
    assert!(wolfpack::profile::prefs::whitelisted_prefs(&prefs, &[]).is_empty());
}
