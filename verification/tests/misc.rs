use wolfpack::config::{ApiConfig, Config, ConfigError, PrefsConfig, SyncConfig};
use wolfpack::daemon::api_token::{constant_time_eq, generate_token, TOKEN_LENGTH};
use wolfpack::daemon::ApiTokenManager;
use wolfpack::extensions::package::{pack_xpi, unpack_xpi, ExtensionError};
use wolfpack::extensions::{
    compress_xpi, decode_base64, decompress_xpi, encode_base64, install_to_profile,
};
use wolfpack::net::protocol::{
    error_response, filter_known_origin, handle_sync_request, handle_sync_response, Notice,
};
use wolfpack::net::{EncryptedEvent, SyncCodec, SyncRequest, SyncResponse, PROTOCOL_NAME};
use wolfpack::table::StringMap;

#[test]
fn test_state_db_path() {
    let mut config = Config::default();
    config.paths.sync_dir = "/custom/sync".to_string();

    let state_db = config.state_db_path();
    assert_eq!(state_db, "/custom/sync/state.db");
}

#[test]
fn test_api_config_default() {
    let api = ApiConfig::default();
    assert_eq!(api.port, Some(9778));
}

#[test]
fn test_sync_config_default() {
    let sync = SyncConfig::default();
    assert!(!sync.enable_dht);
    assert!(sync.listen_port.is_none());
    assert!(sync.bootstrap_peers.is_empty());
}

#[test]
fn test_prefs_config_default() {
    let prefs = PrefsConfig::default();
    assert!(prefs.whitelist.is_empty());
}

#[test]
fn test_config_profile_dir_explicit() {
    let mut config = Config::default();
    config.paths.profile = Some("/explicit/profile".to_string());

    let result = config.profile_dir().unwrap();
    assert_eq!(result, "/explicit/profile");
}

#[test]
fn test_config_profile_dir_no_librewolf() {
    let config = Config::default();
    let result = config.profile_dir();
    match result {
        Ok(path) => assert!(!path.is_empty()),
        Err(e) => {
            assert!(e.message().contains("LibreWolf") || e.message().contains("home"))
        }
    }
    assert_eq!(config.profile_dir(), Err(ConfigError::ProfileNotConfigured));
}

#[test]
fn test_config_default_values() {
    let config = Config::default();

    // Device should have a UUID
    assert!(!config.device.id.is_empty());
    assert!(uuid::Uuid::parse_str(&config.device.id).is_ok());

    // Device name should be set
    assert!(!config.device.name.is_empty());

    // Sync dir should be set
    assert!(!config.paths.sync_dir.is_empty());

    // Profile should be None by default (auto-detect)
    assert!(config.paths.profile.is_none());

    // API should default to port 9778
    assert_eq!(config.api.port, Some(9778));

    // DHT should be disabled by default
    assert!(!config.sync.enable_dht);

    // Bootstrap peers should be empty
    assert!(config.sync.bootstrap_peers.is_empty());

    // Prefs whitelist should be empty
    assert!(config.prefs.whitelist.is_empty());
}

#[test]
fn config_as_toml() {
    let mut config = Config::default();
    config.device.id = "dev-1".to_string();
    config.device.name = "test-device".to_string();
    config.paths.sync_dir = "/sync".to_string();
    assert_eq!(
        config.to_toml_string(),
        "[device]\nid = \"dev-1\"\nname = \"test-device\"\n\n[paths]\nsync_dir = \"/sync\"\n\n\
         [sync]\nenable_mdns = false\nenable_dht = false\n\n[api]\nport = 9778\n\n[prefs]\n"
    );

    config.paths.profile = Some("/custom/profile".to_string());
    config.sync.enable_dht = true;
    config.sync.enable_mdns = true;
    config.sync.listen_port = Some(9999);
    config.sync.bootstrap_peers =
        vec!["/ip4/1.2.3.4/tcp/4001".to_string(), "/ip4/5.6.7.8/tcp/1".to_string()];
    config.api.port = None;
    config.prefs.whitelist = vec!["browser.*".to_string()];
    assert_eq!(
        config.to_toml_string(),
        "[device]\nid = \"dev-1\"\nname = \"test-device\"\n\n[paths]\nprofile = \
         \"/custom/profile\"\nsync_dir = \"/sync\"\n\n[sync]\nlisten_port = 9999\nenable_mdns = \
         true\nenable_dht = true\nbootstrap_peers = [\"/ip4/1.2.3.4/tcp/4001\", \
         \"/ip4/5.6.7.8/tcp/1\"]\n\n[api]\n\n[prefs]\nwhitelist = [\"browser.*\"]\n"
    );
    let parsed: toml::Value = toml::from_str(&config.to_toml_string()).unwrap();
    assert_eq!(parsed["sync"]["listen_port"].as_integer(), Some(9999));
    assert_eq!(parsed["prefs"]["whitelist"][0].as_str(), Some("browser.*"));
}

#[test]
fn test_token_generation() {
    let token = generate_token();
    assert_eq!(token.len(), TOKEN_LENGTH * 2); // hex encoded
    assert!(token.chars().all(|c| c.is_ascii_hexdigit() && !c.is_ascii_uppercase()));
    assert_ne!(generate_token(), token);
}

#[test]
fn test_token_persistence() {
    let manager1 = ApiTokenManager::load_or_create("/data", None);
    let token1 = manager1.token().to_string();
    let stored = format!("{token1}\n");

    let manager2 = ApiTokenManager::load_or_create("/data", Some(&stored));
    let token2 = manager2.token().to_string();

    assert_eq!(token1, token2);
    assert_eq!(manager2.token_path(), "/data/api.token");
}

#[test]
fn test_token_validation() {
    let manager = ApiTokenManager::load_or_create("/data", None);

    assert!(manager.validate(manager.token()));
    assert!(!manager.validate("wrong-token"));
    assert!(!manager.validate(""));
    assert!(!manager.validate(&manager.token()[1..]));
}

#[test]
fn regenerating_invalidates_the_old_token() {
    let mut manager = ApiTokenManager::load_or_create("/data", Some("  abc \n"));
    assert_eq!(manager.token(), "abc");
    let fresh = manager.regenerate().to_string();
    assert_eq!(fresh.len(), 64);
    assert_eq!(manager.token(), fresh);
    assert!(manager.validate(&fresh));
    assert!(!manager.validate("abc"));
}

#[test]
fn constant_time_comparison() {
    assert!(constant_time_eq(b"", b""));
    assert!(constant_time_eq(b"abc", b"abc"));
    assert!(!constant_time_eq(b"abc", b"abd"));
    assert!(!constant_time_eq(b"abc", b"ab"));
    assert!(!constant_time_eq(b"\x00\x01", b"\x01\x00"));
    assert!(!constant_time_eq(b"\x80", b"\x00"));
}

#[test]
fn test_compress_decompress_roundtrip() {
    let original = b"Hello, this is some test data for compression!";
    let compressed = compress_xpi(original).unwrap();
    let decompressed = decompress_xpi(&compressed).unwrap();
    assert_eq!(original.as_slice(), decompressed.as_slice());
}

#[test]
fn test_encode_decode_base64_roundtrip() {
    let original = vec![0x00, 0x01, 0x02, 0xfe, 0xff];
    let encoded = encode_base64(&original);
    assert_eq!(encoded, "AAEC/v8=");
    let decoded = decode_base64(&encoded).unwrap();
    assert_eq!(original, decoded);
}

#[test]
fn test_decode_base64_invalid() {
    let result = decode_base64("not valid base64!!!");
    assert!(result.is_err());
    assert_eq!(result, Err(ExtensionError::InvalidBase64));
}

#[test]
fn test_compress_empty_data() {
    let empty: &[u8] = &[];
    let compressed = compress_xpi(empty).unwrap();
    let decompressed = decompress_xpi(&compressed).unwrap();
    assert!(decompressed.is_empty());
}

#[test]
fn test_compress_large_data() {
    let large_data: Vec<u8> = (0..100_000).map(|i| (i % 256) as u8).collect();
    let compressed = compress_xpi(&large_data).unwrap();
    let decompressed = decompress_xpi(&compressed).unwrap();
    assert_eq!(large_data, decompressed);

    // Compressed should be smaller
    assert!(compressed.len() < large_data.len());
}

#[test]
fn packages_unpack_to_their_bytes() {
    let bytes = b"PK\x03\x04 pretend package".to_vec();
    let text = pack_xpi(&bytes).unwrap();
    assert_ne!(text.as_bytes(), bytes.as_slice());
    assert_eq!(unpack_xpi(&text), Ok(bytes.clone()));

    let file = install_to_profile(&text, "ub@x").unwrap();
    assert_eq!(file.id, "ub@x");
    assert_eq!(file.path, "extensions/ub@x.xpi");
    assert_eq!(file.bytes, bytes);

    assert_eq!(unpack_xpi("%%%"), Err(ExtensionError::InvalidBase64));
    assert_eq!(unpack_xpi(&encode_base64(b"no frame")), Err(ExtensionError::DecompressionFailed));
    assert_eq!(decompress_xpi(b"no frame"), Err(ExtensionError::DecompressionFailed));
    assert!(matches!(
        install_to_profile("%%%", "ub@x"),
        Err(ExtensionError::InvalidBase64)
    ));
}

#[test]
fn test_protocol_name() {
    assert_eq!(PROTOCOL_NAME, "/wolfpack/sync/1.0.0");
}

#[test]
fn test_sync_codec_default() {
    let codec = SyncCodec;
    // Just verify it can be created
    let _ = codec;
    let _ = SyncCodec::default();
}

fn sealed(id: &str, device: &str, cipher: u8) -> EncryptedEvent {
    EncryptedEvent {
        id: id.to_string(),
        device_id: device.to_string(),
        counter: 1,
        ciphertext: vec![1, 2, 3],
        public_key: vec![4, 5, 6],
        cipher,
        nonce: vec![7, 8, 9],
    }
}

#[test]
fn requests_are_routed() {
    let (notice, reply) = handle_sync_request(SyncRequest::GetClock);
    assert!(matches!(notice, Notice::ClockRequested));
    assert!(reply.is_none());

    let mut clock = StringMap::new();
    clock.insert("device-a".to_string(), 5u64);
    let (notice, reply) = handle_sync_request(SyncRequest::GetEvents { clock });
    match notice {
        Notice::EventsRequested { clock } => assert_eq!(clock.get("device-a"), Some(&5)),
        other => panic!("unexpected {other:?}"),
    }
    assert!(reply.is_none());

    let (notice, reply) = handle_sync_request(SyncRequest::PushEvents {
        events: vec![sealed("event-1", "device-a", 1), sealed("event-2", "device-a", 2)],
    });
    match notice {
        Notice::EventsReceived { events } => {
            assert_eq!(events.len(), 2);
            assert_eq!(events[0].id, "event-1");
            assert_eq!(events[1].cipher, 2);
        }
        other => panic!("unexpected {other:?}"),
    }
    assert!(matches!(reply, Some(SyncResponse::Ack { count: 2 })));

    let (notice, reply) = handle_sync_request(SyncRequest::SendTab {
        url: "https://example.com".to_string(),
        title: Some("Example".to_string()),
        from_device: "device-a".to_string(),
    });
    match notice {
        Notice::TabReceived { url, title, from_device } => {
            assert_eq!(url, "https://example.com");
            assert_eq!(title, Some("Example".to_string()));
            assert_eq!(from_device, "device-a");
        }
        other => panic!("unexpected {other:?}"),
    }
    assert!(matches!(reply, Some(SyncResponse::TabReceived)));
}

#[test]
fn responses_are_routed() {
    match handle_sync_response(SyncResponse::Events { events: vec![sealed("e", "d", 1)] }) {
        Some(Notice::EventsReceived { events }) => assert_eq!(events.len(), 1),
        other => panic!("unexpected {other:?}"),
    }
    assert!(handle_sync_response(SyncResponse::Ack { count: 5 }).is_none());
    assert!(handle_sync_response(SyncResponse::TabReceived).is_none());
    assert!(handle_sync_response(SyncResponse::Clock {
        clock: StringMap::new(),
        device_id: "d".to_string(),
        device_name: "n".to_string()
    })
    .is_none());
    match error_response("Something went wrong") {
        SyncResponse::Error { message } => assert_eq!(message, "Something went wrong"),
        other => panic!("unexpected {other:?}"),
    }
    assert!(handle_sync_response(error_response("x")).is_none());
}

#[test]
fn events_of_unknown_origin_are_discarded() {
    let events = vec![
        sealed("1", "paired", 1),
        sealed("2", "stranger", 1),
        sealed("3", "paired", 9),
        sealed("4", "other", 2),
    ];
    let paired = vec!["paired".to_string(), "other".to_string()];
    let kept = filter_known_origin(&events, &paired);
    let ids: Vec<&str> = kept.iter().map(|e| e.id.as_str()).collect();
    assert_eq!(ids, vec!["1", "4"]);
    assert!(filter_known_origin(&events, &[]).is_empty());
}
