use wolfpack::config::Config;
use wolfpack::crypto::keypair::KeyPair;
use wolfpack::events::log::EventLog;
use wolfpack::events::storage::LogError;
use wolfpack::events::types::{Event, EventEnvelope, ExtensionSource, PrefValue};
use wolfpack::extensions::package::{pack_xpi, ExtensionError};
use wolfpack::net::protocol::EncryptedEvent;
use wolfpack::profile::{Container, Extension, Handler, PendingWrite};
use wolfpack::state::StateDb;
use wolfpack::sync::engine::{
    materialized_containers, materialized_handlers, materialized_prefs, read_stored_pref,
    sync_report, EngineError,
};
use wolfpack::sync::SyncEngine;
use wolfpack::table::StringMap;

fn engine_for(device: &str, whitelist: &[&str]) -> (SyncEngine, KeyPair) {
    let mut config = Config::default();
    config.device.id = device.to_string();
    config.paths.sync_dir = "/sync".to_string();
    config.prefs.whitelist = whitelist.iter().map(|s| s.to_string()).collect();
    let keypair = KeyPair::generate();
    let log = EventLog::new("/sync".to_string(), device.to_string(), keypair.clone());
    let engine = SyncEngine::new(config, log, StateDb::open_in_memory(), "/profile".to_string());
    (engine, keypair)
}

/// Stands in for the serialisation of envelopes, which is not the
/// library's.
fn serialize(envelopes: &[EventEnvelope]) -> Vec<u8> {
    let mut out = String::new();
    for e in envelopes {
        out.push_str(&format!("{}|{}|{}|{:?}\n", e.id, e.timestamp, e.device, e.event));
    }
    out.into_bytes()
}

#[test]
fn solo_write_read_round_trip() {
    let (mut a, _) = engine_for("A", &[]);
    let event =
        Event::ExtensionAdded { id: "ub@x".to_string(), name: "U".to_string(), url: None };

    let envelopes = a.write_events(vec![event.clone()]).unwrap().unwrap();
    let plaintext = serialize(&envelopes);
    let batch = a.seal_events(&plaintext, &[], true).unwrap();
    assert_eq!(batch.path, "/sync/events/A/0001.evt");
    let mut file = Vec::new();
    batch.file.write_to(&mut file);

    // re-reading its own log yields the batch again
    let read = a.event_log().read_device_events(&[file], a.known_devices());
    assert_eq!(read.len(), 1);
    assert_eq!(read[0].as_ref().unwrap(), &plaintext);
    assert_eq!(envelopes.len(), 1);
    assert_eq!(envelopes[0].event, event);
    assert_eq!(envelopes[0].device, "A");

    // clock A becomes {A:1}
    let clock = a.get_vector_clock();
    assert_eq!(clock.len(), 1);
    assert_eq!(clock.get("A"), Some(&1));
    assert_eq!(envelopes[0].clock.get("A"), 1);

    assert_eq!(a.process_incoming(&envelopes), 1);
    assert_eq!(a.state().get_extensions(), vec![("ub@x".to_string(), "U".to_string(), None)]);
    assert_eq!(a.state().load_vector_clock().get("A"), 1);
}

#[test]
fn writing_nothing_writes_nothing() {
    let (mut a, _) = engine_for("A", &[]);
    assert!(matches!(a.write_events(Vec::new()), Ok(None)));
    assert!(a.get_vector_clock().is_empty());
}

#[test]
fn two_device_merge() {
    let (mut a, _) = engine_for("A", &[]);
    let (mut b, _) = engine_for("B", &[]);

    let from_a = a
        .write_events(vec![Event::ExtensionAdded {
            id: "ub@x".to_string(),
            name: "U".to_string(),
            url: None,
        }])
        .unwrap()
        .unwrap();
    let from_b = b
        .write_events(vec![Event::ExtensionAdded {
            id: "np@y".to_string(),
            name: "N".to_string(),
            url: None,
        }])
        .unwrap()
        .unwrap();
    assert_eq!(from_a[0].clock.get("A"), 1);
    assert_eq!(from_b[0].clock.get("B"), 1);
    assert!(from_a[0].clock.concurrent_with(&from_b[0].clock));

    // after exchanging logs each device reads both
    let mut all = from_a.clone();
    all.extend(from_b.iter().cloned());
    let mut reversed = all.clone();
    reversed.reverse();
    assert_eq!(a.process_incoming(&all), 2);
    assert_eq!(b.process_incoming(&reversed), 2);

    for engine in [&a, &b] {
        let mut ids: Vec<String> =
            engine.state().get_extensions().into_iter().map(|e| e.0).collect();
        ids.sort();
        assert_eq!(ids, vec!["np@y", "ub@x"]);
        let clock = engine.event_log().clock();
        assert_eq!(clock.get("A"), 1);
        assert_eq!(clock.get("B"), 1);
        assert_eq!(clock.devices().len(), 2);
        assert_eq!(engine.state().load_vector_clock(), clock.clone());
    }
    assert_eq!(a.event_log().clock(), b.event_log().clock());
    assert!(!a.event_log().clock().happens_before(b.event_log().clock()));
    assert!(!b.event_log().clock().happens_before(a.event_log().clock()));

    // reading the same log again applies nothing and leaves the clock
    assert_eq!(a.process_incoming(&all), 0);
    assert_eq!(a.event_log().clock().get("A"), 1);
}

fn container(id: u32, name: &str) -> Container {
    Container {
        user_context_id: id,
        name: name.to_string(),
        icon: "circle".to_string(),
        color: "blue".to_string(),
        is_public: true,
    }
}

#[test]
fn browser_live_deferral() {
    let (mut engine, _) = engine_for("A", &["browser.*"]);
    let incoming = vec![
        EventEnvelope::new(
            "B".to_string(),
            Default::default(),
            Event::ContainerAdded {
                id: "7".to_string(),
                name: "Work".to_string(),
                color: "blue".to_string(),
                icon: "briefcase".to_string(),
            },
        ),
        EventEnvelope::new(
            "B".to_string(),
            Default::default(),
            Event::PrefSet { key: "browser.x".to_string(), value: PrefValue::Int(5) },
        ),
    ];
    assert_eq!(engine.process_incoming(&incoming), 2);

    // browser lock present: the writes are queued and nothing is to be written
    let writes = engine.apply_to_profile(true);
    assert!(writes.is_empty());
    assert_eq!(engine.queued_writes(), 2);

    // lock removed: the queue is flushed
    let to_write = engine.apply_to_profile(false);
    let names: Vec<&str> = to_write.iter().map(|w| w.artifact()).collect();
    assert_eq!(names, vec!["containers.json", "user.js", "containers.json", "user.js"]);
    match &to_write[0] {
        PendingWrite::Containers(c) => {
            assert_eq!(c.len(), 1);
            assert_eq!(c[0].user_context_id, 7);
            assert_eq!(c[0].name, "Work");
            assert_eq!(c[0].color, "blue");
            assert_eq!(c[0].icon, "briefcase");
            assert!(c[0].is_public);
        }
        other => panic!("unexpected {other:?}"),
    }
    match &to_write[1] {
        PendingWrite::Prefs(p) => assert_eq!(p.get("browser.x"), Some(&PrefValue::Int(5))),
        other => panic!("unexpected {other:?}"),
    }
    let flushed = engine.flush_write_queue(engine.queued_writes());
    assert_eq!(flushed, vec!["containers.json", "user.js"]);
    assert_eq!(engine.queued_writes(), 0);
}

#[test]
fn an_idle_profile_gets_the_snapshots_directly() {
    let (mut engine, _) = engine_for("A", &[]);
    assert!(engine.apply_to_profile(false).is_empty());
    assert!(engine.apply_to_profile(true).is_empty());
    assert_eq!(engine.queued_writes(), 0);

    let incoming = vec![EventEnvelope::new(
        "B".to_string(),
        Default::default(),
        Event::HandlerSet { protocol: "mailto".to_string(), handler: "h".to_string() },
    )];
    engine.process_incoming(&incoming);
    let writes = engine.apply_to_profile(false);
    assert_eq!(writes.len(), 1);
    match &writes[0] {
        PendingWrite::Handlers(h) => {
            assert_eq!(h.len(), 1);
            assert_eq!(h[0].protocol, "mailto");
            assert_eq!(h[0].handler, "h");
        }
        other => panic!("unexpected {other:?}"),
    }
    assert_eq!(engine.queued_writes(), 0);
}

#[test]
fn scanning_finds_what_differs() {
    let (mut engine, _) = engine_for("A", &["browser.*"]);
    let known = vec![
        EventEnvelope::new(
            "B".to_string(),
            Default::default(),
            Event::ExtensionAdded { id: "old@x".to_string(), name: "Old".to_string(), url: None },
        ),
        EventEnvelope::new(
            "B".to_string(),
            Default::default(),
            Event::ContainerAdded {
                id: "1".to_string(),
                name: "One".to_string(),
                color: "c".to_string(),
                icon: "i".to_string(),
            },
        ),
        EventEnvelope::new(
            "B".to_string(),
            Default::default(),
            Event::HandlerSet { protocol: "mailto".to_string(), handler: "old".to_string() },
        ),
        EventEnvelope::new(
            "B".to_string(),
            Default::default(),
            Event::PrefSet { key: "browser.a".to_string(), value: PrefValue::Bool(true) },
        ),
        EventEnvelope::new(
            "B".to_string(),
            Default::default(),
            Event::PrefSet { key: "browser.b".to_string(), value: PrefValue::Int(-3) },
        ),
    ];
    engine.process_incoming(&known);

    let extensions =
        vec![Extension { id: "new@x".to_string(), name: "New".to_string(), url: None }];
    let containers = vec![container(1, "One"), container(2, "Two")];
    let handlers = vec![Handler { protocol: "mailto".to_string(), handler: "new".to_string() }];
    let mut prefs = StringMap::new();
    prefs.insert("browser.a".to_string(), PrefValue::Bool(true));
    prefs.insert("browser.c".to_string(), PrefValue::String("s".to_string()));

    let events = engine.scan_profile(&extensions, &containers, &handlers, &prefs);
    assert_eq!(
        events,
        vec![
            Event::ExtensionAdded { id: "new@x".to_string(), name: "New".to_string(), url: None },
            Event::ExtensionRemoved { id: "old@x".to_string() },
            Event::ContainerAdded {
                id: "2".to_string(),
                name: "Two".to_string(),
                color: "blue".to_string(),
                icon: "circle".to_string()
            },
            Event::HandlerSet { protocol: "mailto".to_string(), handler: "new".to_string() },
            Event::PrefSet {
                key: "browser.c".to_string(),
                value: PrefValue::String("s".to_string())
            },
            Event::PrefRemoved { key: "browser.b".to_string() },
        ]
    );

    // the events of a scan bring the index up to the profile
    let envelopes = engine.write_events(events).unwrap().unwrap();
    engine.process_incoming(&envelopes);
    assert!(engine.scan_profile(&extensions, &containers, &handlers, &prefs).is_empty());
}

#[test]
fn preferences_are_left_alone_without_a_whitelist() {
    let (mut engine, _) = engine_for("A", &[]);
    engine.process_incoming(&[EventEnvelope::new(
        "B".to_string(),
        Default::default(),
        Event::PrefSet { key: "k".to_string(), value: PrefValue::Bool(true) },
    )]);
    let mut prefs = StringMap::new();
    prefs.insert("other".to_string(), PrefValue::Int(1));
    assert!(engine.scan_profile(&[], &[], &[], &prefs).is_empty());
}

#[test]
fn stored_preferences_read_back() {
    assert_eq!(read_stored_pref("true", "bool"), PrefValue::Bool(true));
    assert_eq!(read_stored_pref("false", "bool"), PrefValue::Bool(false));
    assert_eq!(read_stored_pref("yes", "bool"), PrefValue::Bool(false));
    assert_eq!(read_stored_pref("42", "int"), PrefValue::Int(42));
    assert_eq!(read_stored_pref("-42", "int"), PrefValue::Int(-42));
    assert_eq!(read_stored_pref("+7", "int"), PrefValue::Int(7));
    assert_eq!(read_stored_pref("9223372036854775807", "int"), PrefValue::Int(i64::MAX));
    assert_eq!(read_stored_pref("-9223372036854775808", "int"), PrefValue::Int(i64::MIN));
    assert_eq!(read_stored_pref("9223372036854775808", "int"), PrefValue::Int(0));
    assert_eq!(read_stored_pref("", "int"), PrefValue::Int(0));
    assert_eq!(read_stored_pref("-", "int"), PrefValue::Int(0));
    assert_eq!(read_stored_pref("1x", "int"), PrefValue::Int(0));
    assert_eq!(read_stored_pref("42", "string"), PrefValue::String("42".to_string()));
    assert_eq!(read_stored_pref("42", "other"), PrefValue::String("42".to_string()));
}

#[test]
fn snapshots_of_the_index() {
    let mut db = StateDb::open_in_memory();
    db.add_container("3", "Three", "red", "dot");
    db.add_container("x", "Odd", "green", "star");
    db.set_handler("tel", "phone");
    db.set_pref("a", "true", "bool");
    db.set_pref("b", "12", "int");
    db.set_pref("c", "text", "string");

    let containers = materialized_containers(&db);
    assert_eq!(containers.len(), 2);
    assert_eq!(containers[0].user_context_id, 3);
    assert_eq!(containers[0].name, "Three");
    assert_eq!(containers[0].color, "red");
    assert_eq!(containers[0].icon, "dot");
    assert_eq!(containers[1].user_context_id, 0);

    let handlers = materialized_handlers(&db);
    assert_eq!(handlers.len(), 1);
    assert_eq!((handlers[0].protocol.as_str(), handlers[0].handler.as_str()), ("tel", "phone"));

    let prefs = materialized_prefs(&db);
    assert_eq!(prefs.len(), 3);
    assert_eq!(prefs.get("a"), Some(&PrefValue::Bool(true)));
    assert_eq!(prefs.get("b"), Some(&PrefValue::Int(12)));
    assert_eq!(prefs.get("c"), Some(&PrefValue::String("text".to_string())));
}

fn installed(id: &str, package: &[u8]) -> EventEnvelope {
    EventEnvelope::new(
        "B".to_string(),
        Default::default(),
        Event::ExtensionInstalled {
            id: id.to_string(),
            name: "Name".to_string(),
            version: "1.0".to_string(),
            source: ExtensionSource::Amo { amo_slug: "slug".to_string() },
            xpi_data: pack_xpi(package).unwrap(),
        },
    )
}

#[test]
fn installed_extensions_get_their_package_file() {
    let (mut engine, _) = engine_for("A", &[]);
    engine.process_incoming(&[
        installed("one@x", b"package one"),
        installed("two@x", b"package two"),
        EventEnvelope::new(
            "B".to_string(),
            Default::default(),
            Event::ExtensionAdded { id: "bare@x".to_string(), name: "B".to_string(), url: None },
        ),
    ]);

    let files = engine.install_pending_extensions(&["two@x.xpi".to_string()]).unwrap();
    assert_eq!(files.len(), 1);
    assert_eq!(files[0].id, "one@x");
    assert_eq!(files[0].path, "extensions/one@x.xpi");
    assert_eq!(files[0].bytes, b"package one");

    let all = engine.install_pending_extensions(&[]).unwrap();
    let ids: Vec<&str> = all.iter().map(|f| f.id.as_str()).collect();
    assert_eq!(ids, vec!["one@x", "two@x"]);
    assert_eq!(all[1].bytes, b"package two");

    let none = engine
        .install_pending_extensions(&["one@x.xpi".to_string(), "two@x.xpi".to_string()])
        .unwrap();
    assert!(none.is_empty());
}

#[test]
fn a_package_that_does_not_unpack_fails_the_plan() {
    let (mut engine, _) = engine_for("A", &[]);
    engine.process_incoming(&[
        installed("good@x", b"fine"),
        EventEnvelope::new(
            "B".to_string(),
            Default::default(),
            Event::ExtensionInstalled {
                id: "bad@x".to_string(),
                name: "Bad".to_string(),
                version: "1".to_string(),
                source: ExtensionSource::Local { original_path: "/p".to_string() },
                xpi_data: "%%%".to_string(),
            },
        ),
    ]);
    assert!(matches!(
        engine.install_pending_extensions(&[]),
        Err(ExtensionError::InvalidBase64)
    ));
    assert_eq!(engine.install_pending_extensions(&["bad@x.xpi".to_string()]).unwrap().len(), 1);
}

#[test]
fn uninstalled_extensions_are_removed_once() {
    let (mut engine, _) = engine_for("A", &[]);
    engine.process_incoming(&[
        installed("gone@x", b"p"),
        installed("kept@x", b"q"),
        EventEnvelope::new(
            "B".to_string(),
            Default::default(),
            Event::ExtensionRemoved { id: "gone@x".to_string() },
        ),
    ]);
    // "gone@x" has a package but no extension row; "kept@x" has both;
    // "foreign@x" is not the library's
    let stems = vec![
        "foreign@x".to_string(),
        "gone@x".to_string(),
        "kept@x".to_string(),
        "gone@x".to_string(),
    ];
    assert_eq!(engine.remove_uninstalled_extensions(&stems), vec!["gone@x"]);
    assert!(engine.state().get_extension_xpi("gone@x").is_none());
    assert!(engine.state().get_extension_xpi("kept@x").is_some());
    assert!(engine.remove_uninstalled_extensions(&stems).is_empty());
}

#[test]
fn tabs_are_sent_received_and_acknowledged() {
    let (mut a, _) = engine_for("A", &[]);
    let (mut b, _) = engine_for("B", &[]);

    let sent = a.send_tab("B", "https://example.com", Some("Example")).unwrap();
    assert_eq!(sent.len(), 1);
    assert_eq!(
        sent[0].event,
        Event::TabSent {
            to_device: "B".to_string(),
            url: "https://example.com".to_string(),
            title: Some("Example".to_string())
        }
    );

    // the sender does not queue its own tab, the receiver does
    a.process_incoming(&sent);
    assert!(a.get_pending_tabs().is_empty());
    b.process_incoming(&sent);
    let tabs = b.get_pending_tabs();
    assert_eq!(tabs.len(), 1);
    assert_eq!(tabs[0].url, "https://example.com");
    assert_eq!(tabs[0].from_device, "A");

    assert_eq!(b.acknowledge_tab("not an id").unwrap_err(), EngineError::InvalidTabId);
    assert_eq!(b.get_pending_tabs().len(), 1);

    let ack = b.acknowledge_tab(&tabs[0].id).unwrap();
    assert!(b.get_pending_tabs().is_empty());
    assert_eq!(
        ack[0].event,
        Event::TabReceived { event_id: uuid::Uuid::parse_str(&tabs[0].id).unwrap().as_u128() }
    );
    assert_eq!(b.get_vector_clock().get("B"), Some(&1));

    b.receive_tab("https://direct.example", None, "C");
    let direct = b.get_pending_tabs();
    assert_eq!(direct.len(), 1);
    assert_eq!(direct[0].url, "https://direct.example");
    assert_eq!(direct[0].from_device, "C");
    assert_eq!(direct[0].title, None);
}

#[test]
fn remote_events_are_counted() {
    let (mut engine, _) = engine_for("A", &[]);
    assert_eq!(engine.apply_remote_events(Vec::new()), 0);
    let event = EncryptedEvent {
        id: "uuid-here".to_string(),
        device_id: "device-123".to_string(),
        counter: 42,
        ciphertext: vec![0xde, 0xad, 0xbe, 0xef],
        public_key: vec![0x01, 0x02, 0x03],
        cipher: 1,
        nonce: vec![0x0a, 0x0b, 0x0c],
    };
    assert_eq!(engine.apply_remote_events(vec![event.clone(), event]), 2);
    assert!(engine.get_events_since(&StringMap::new()).is_empty());
}

#[test]
fn engine_identity() {
    let (mut engine, _) = engine_for("A", &[]);
    assert_eq!(engine.device_id(), "A");
    assert_eq!(engine.sync_dir(), "/sync");
    assert_eq!(engine.profile_path(), "/profile");
    assert!(engine.known_devices().is_empty());
    engine.add_known_device("B".to_string(), [3u8; 32]);
    assert_eq!(engine.known_devices(), &vec![("B".to_string(), [3u8; 32])]);
}

#[test]
fn a_counter_at_its_end_refuses_to_write() {
    let mut config = Config::default();
    config.device.id = "A".to_string();
    let mut log = EventLog::new("/s".to_string(), "A".to_string(), KeyPair::generate());
    let mut clock = wolfpack::events::VectorClock::new();
    clock.set("A", u64::MAX);
    log.set_clock(clock);
    let mut engine = SyncEngine::new(config, log, StateDb::open_in_memory(), "/p".to_string());
    assert_eq!(engine.send_tab("B", "u", None).unwrap_err(), LogError::CounterExhausted);
}

#[test]
fn the_report_of_a_cycle() {
    let report = sync_report(
        3,
        2,
        vec!["containers.json".to_string()],
        &["ub@x".to_string()],
        &["old@y".to_string(), "older@z".to_string()],
        Some("/sync/events/A/0004.evt".to_string()),
    );
    assert_eq!(report.incoming_applied, 3);
    assert_eq!(report.outbound_written, 2);
    assert_eq!(
        report.profile_files_written,
        vec![
            "containers.json",
            "extensions/ub@x.xpi",
            "extensions/old@y.xpi (removed)",
            "extensions/older@z.xpi (removed)"
        ]
    );
    assert_eq!(report.event_file.as_deref(), Some("/sync/events/A/0004.evt"));
}

#[test]
fn the_clock_follows_envelopes_that_are_already_applied() {
    // A device that starts again has an empty log clock while its index
    // holds the applied events: reading the log brings the clock back.
    let (mut a, key) = engine_for("A", &[]);
    let first = a
        .write_events(vec![Event::HandlerSet {
            protocol: "mailto".to_string(),
            handler: "https://mail.example/%s".to_string(),
        }])
        .unwrap()
        .unwrap();
    let second = a
        .write_events(vec![Event::HandlerRemoved { protocol: "irc".to_string() }])
        .unwrap()
        .unwrap();
    let mut all = first.clone();
    all.extend(second.iter().cloned());
    assert_eq!(a.process_incoming(&all), 2);
    assert_eq!(a.event_log().clock().get("A"), 2);

    let mut config = Config::default();
    config.device.id = "A".to_string();
    let index = StateDb::open_in_memory();
    let mut restarted = SyncEngine::new(
        config,
        EventLog::new("/sync".to_string(), "A".to_string(), key),
        index,
        "/profile".to_string(),
    );
    assert_eq!(restarted.process_incoming(&all), 2);
    assert_eq!(restarted.event_log().clock().get("A"), 2);

    // Nothing takes effect the second time; the clock is merged all the same.
    let mut peer = wolfpack::events::VectorClock::new();
    peer.set("A", 2);
    peer.set("B", 7);
    let mut seen = all.clone();
    seen[0].clock = peer;
    assert_eq!(restarted.process_incoming(&seen), 0);
    let clock = restarted.event_log().clock();
    assert_eq!(clock.get("A"), 2);
    assert_eq!(clock.get("B"), 7);
    assert_eq!(clock.devices().len(), 2);
    assert_eq!(restarted.state().load_vector_clock(), clock.clone());

    // An empty read leaves the clock and stores it.
    assert_eq!(restarted.process_incoming(&[]), 0);
    assert_eq!(restarted.event_log().clock().get("B"), 7);
    assert_eq!(restarted.state().load_vector_clock().get("A"), 2);
}

#[test]
fn logging_a_tab_advances_the_clock() {
    let (mut a, _) = engine_for("A", &[]);
    let sent = a.send_tab("B", "https://example.com", None).unwrap();
    assert_eq!(sent[0].device, "A");
    assert_eq!(sent[0].clock.get("A"), 1);
    assert_eq!(a.get_vector_clock().get("A"), Some(&1));
    let again = a.send_tab("B", "https://example.org", None).unwrap();
    assert_eq!(again[0].clock.get("A"), 2);
    assert_eq!(a.event_log().clock(), &again[0].clock);

    let id = "01890a5d-ac96-774b-bcce-b302099a8057";
    let ack = a.acknowledge_tab(id).unwrap();
    assert_eq!(ack.len(), 1);
    assert_eq!(ack[0].device, "A");
    assert_eq!(ack[0].clock.get("A"), 3);
    assert_eq!(a.event_log().clock(), &ack[0].clock);

    // A counter that cannot advance stops both, with the clock as it was.
    let mut full = wolfpack::events::VectorClock::new();
    full.set("A", u64::MAX);
    let (mut b, key) = engine_for("A", &[]);
    let mut log = EventLog::new("/sync".to_string(), "A".to_string(), key);
    log.set_clock(full.clone());
    let mut config = Config::default();
    config.device.id = "A".to_string();
    b = SyncEngine::new(config, log, StateDb::open_in_memory(), "/profile".to_string());
    b.receive_tab("https://held.example", None, "C");
    let held = b.get_pending_tabs();
    assert_eq!(b.send_tab("B", "https://example.com", None).unwrap_err(), LogError::CounterExhausted);
    assert_eq!(
        b.acknowledge_tab(&held[0].id).unwrap_err(),
        EngineError::Log(LogError::CounterExhausted)
    );
    assert!(b.get_pending_tabs().is_empty());
    assert_eq!(b.event_log().clock(), &full);
}

#[test]
fn packed_text_is_the_compressed_package_in_base64() {
    let bytes = b"PK\x03\x04 some package bytes, some package bytes, some package bytes".to_vec();
    let frame = zstd::encode_all(std::io::Cursor::new(&bytes), 19).unwrap();
    let text = base64::Engine::encode(&base64::engine::general_purpose::STANDARD, &frame);
    assert_eq!(pack_xpi(&bytes), Ok(text));
    assert_eq!(wolfpack::extensions::compress_xpi(&bytes), Ok(frame));
    assert!(pack_xpi(&[]).is_ok());
}
