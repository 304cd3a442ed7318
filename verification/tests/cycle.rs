use wolfpack::config::Config;
use wolfpack::crypto::keypair::KeyPair;
use wolfpack::events::log::EventLog;
use wolfpack::events::types::{Event, EventEnvelope, ExtensionSource, PrefValue};
use wolfpack::events::VectorClock;
use wolfpack::extensions::package::{manifest_from_fields, pack_xpi, ExtensionError};
use wolfpack::net::node::{SwarmAction, SwarmEvent};
use wolfpack::net::protocol::EncryptedEvent;
use wolfpack::net::{NetworkCommand, NetworkEvent, Node, SyncRequest, SyncResponse};
use wolfpack::profile::scan::{
    extension_from_addon, max_context_id, search_engine_from_record, select_profile, ProfileEntry,
};
use wolfpack::profile::{Container, Extension, Handler};
use wolfpack::state::StateDb;
use wolfpack::sync::engine::{flush_due, EngineError, ProfileScan};
use wolfpack::sync::merge::events_missing_at;
use wolfpack::sync::SyncEngine;
use wolfpack::table::StringMap;

fn engine_for(device: &str) -> SyncEngine {
    let mut config = Config::default();
    config.device.id = device.to_string();
    config.device.name = format!("{device}-name");
    config.paths.sync_dir = "/sync".to_string();
    config.prefs.whitelist = vec!["browser.*".to_string()];
    let log = EventLog::new("/sync".to_string(), device.to_string(), KeyPair::generate());
    SyncEngine::new(config, log, StateDb::open_in_memory(), "/profile".to_string())
}

fn nothing_seen() -> ProfileScan {
    ProfileScan {
        envelopes: Vec::new(),
        extensions: Vec::new(),
        containers: Vec::new(),
        handlers: Vec::new(),
        prefs: StringMap::new(),
        browser_live: false,
        extension_files: Vec::new(),
        xpi_stems: Vec::new(),
    }
}

#[test]
fn an_empty_cycle_does_nothing() {
    let mut engine = engine_for("A");
    let plan = engine.sync(&nothing_seen()).unwrap();
    assert_eq!(plan.incoming_applied, 0);
    assert!(plan.outbound.is_empty());
    assert!(plan.envelopes.is_none());
    assert!(plan.profile_writes.is_empty());
    assert!(plan.install.is_empty());
    assert!(plan.removed.is_empty());
    assert!(engine.get_vector_clock().is_empty());
}

#[test]
fn a_full_cycle_runs_its_phases_in_order() {
    let mut engine = engine_for("A");
    let package = pack_xpi(b"the package").unwrap();
    let mut seen = nothing_seen();
    seen.envelopes = vec![
        EventEnvelope::with_stamp(
            2,
            20,
            "B".to_string(),
            VectorClock::new(),
            Event::ExtensionInstalled {
                id: "new@x".to_string(),
                name: "New".to_string(),
                version: "1".to_string(),
                source: ExtensionSource::Amo { amo_slug: "s".to_string() },
                xpi_data: package,
            },
        ),
        EventEnvelope::with_stamp(
            1,
            10,
            "B".to_string(),
            VectorClock::new(),
            Event::ContainerAdded {
                id: "4".to_string(),
                name: "Four".to_string(),
                color: "c".to_string(),
                icon: "i".to_string(),
            },
        ),
    ];
    // the profile has the container already and one more extension
    seen.extensions = vec![
        Extension { id: "new@x".to_string(), name: "New".to_string(), url: None },
        Extension { id: "local@x".to_string(), name: "Local".to_string(), url: None },
    ];
    seen.containers = vec![Container {
        user_context_id: 4,
        name: "Four".to_string(),
        icon: "i".to_string(),
        color: "c".to_string(),
        is_public: true,
    }];
    seen.handlers = vec![Handler { protocol: "tel".to_string(), handler: "h".to_string() }];
    seen.prefs.insert("browser.p".to_string(), PrefValue::Bool(false));

    let plan = engine.sync(&seen).unwrap();
    assert_eq!(plan.incoming_applied, 2);
    // the scan sees the index after the incoming events
    assert_eq!(
        plan.outbound,
        vec![
            Event::ExtensionAdded { id: "local@x".to_string(), name: "Local".to_string(), url: None },
            Event::HandlerSet { protocol: "tel".to_string(), handler: "h".to_string() },
            Event::PrefSet { key: "browser.p".to_string(), value: PrefValue::Bool(false) },
        ]
    );
    let envelopes = plan.envelopes.unwrap();
    assert_eq!(envelopes.len(), 3);
    assert!(envelopes.iter().all(|e| e.device == "A" && e.clock.get("A") == 1));
    // the profile writes are decided before the outgoing events come back
    let names: Vec<&str> = plan.profile_writes.iter().map(|w| w.artifact()).collect();
    assert_eq!(names, vec!["containers.json"]);
    assert_eq!(plan.install.len(), 1);
    assert_eq!(plan.install[0].path, "extensions/new@x.xpi");
    assert_eq!(plan.install[0].bytes, b"the package");
    assert!(plan.removed.is_empty());

    // the next cycle reads its own events and finds nothing more to say
    let mut next = nothing_seen();
    next.envelopes = envelopes;
    next.extensions = seen.extensions.clone();
    next.containers = seen.containers.clone();
    next.handlers = seen.handlers.clone();
    next.prefs = seen.prefs.duplicate();
    next.browser_live = true;
    next.extension_files = vec!["new@x.xpi".to_string()];
    next.xpi_stems = vec!["new@x".to_string()];
    let plan = engine.sync(&next).unwrap();
    assert_eq!(plan.incoming_applied, 3);
    assert!(plan.outbound.is_empty());
    assert!(plan.envelopes.is_none());
    assert!(plan.profile_writes.is_empty());
    assert_eq!(engine.queued_writes(), 3);
    assert!(plan.install.is_empty());
    assert!(plan.removed.is_empty());
}

#[test]
fn a_cycle_stops_at_a_package_that_does_not_unpack() {
    let mut engine = engine_for("A");
    let mut seen = nothing_seen();
    seen.envelopes = vec![EventEnvelope::with_stamp(
        1,
        1,
        "B".to_string(),
        VectorClock::new(),
        Event::ExtensionInstalled {
            id: "bad@x".to_string(),
            name: "Bad".to_string(),
            version: "1".to_string(),
            source: ExtensionSource::Amo { amo_slug: "s".to_string() },
            xpi_data: "%%%".to_string(),
        },
    )];
    seen.extensions = vec![Extension { id: "bad@x".to_string(), name: "Bad".to_string(), url: None }];
    let outcome = engine.sync(&seen);
    assert_eq!(outcome.unwrap_err(), EngineError::Extension(ExtensionError::InvalidBase64));
    // the incoming event is applied all the same
    assert_eq!(engine.state().get_extensions().len(), 1);
}

#[test]
fn network_events_are_served() {
    let mut engine = engine_for("A");
    engine.send_tab("B", "u", None).unwrap();

    let commands = engine.handle_network_event(NetworkEvent::PeerDiscovered {
        peer_id: "peer-1".to_string(),
        device_name: None,
    });
    assert!(matches!(&commands[..], [NetworkCommand::GetClock { peer_id }] if peer_id == "peer-1"));
    assert!(engine
        .handle_network_event(NetworkEvent::PeerDisconnected { peer_id: "peer-1".to_string() })
        .is_empty());

    let commands = engine.handle_network_event(NetworkEvent::ClockRequested {
        from: "peer-1".to_string(),
        request_id: 7,
    });
    match &commands[..] {
        [NetworkCommand::RespondClock { request_id, clock, device_id, device_name }] => {
            assert_eq!(*request_id, 7);
            assert_eq!(clock.get("A"), Some(&1));
            assert_eq!(device_id, "A");
            assert_eq!(device_name, "A-name");
        }
        other => panic!("unexpected {other:?}"),
    }
    let commands = engine.handle_network_event(NetworkEvent::EventsRequested {
        from: "peer-1".to_string(),
        request_id: 8,
        clock: StringMap::new(),
    });
    assert!(matches!(
        &commands[..],
        [NetworkCommand::RespondEvents { request_id: 8, events }] if events.is_empty()
    ));
    let pushed = EncryptedEvent {
        id: "e".to_string(),
        device_id: "B".to_string(),
        counter: 1,
        ciphertext: vec![],
        public_key: vec![],
        cipher: 1,
        nonce: vec![],
    };
    assert!(engine
        .handle_network_event(NetworkEvent::EventsReceived {
            from: "peer-1".to_string(),
            events: vec![pushed]
        })
        .is_empty());
    assert!(engine
        .handle_network_event(NetworkEvent::TabReceived {
            from: "peer-1".to_string(),
            url: "https://t".to_string(),
            title: Some("T".to_string()),
            from_device: "B".to_string()
        })
        .is_empty());
    let tabs = engine.get_pending_tabs();
    assert_eq!(tabs.len(), 1);
    assert_eq!(tabs[0].url, "https://t");
    assert_eq!(tabs[0].title.as_deref(), Some("T"));
    assert_eq!(tabs[0].from_device, "B");
}

#[test]
fn commands_become_requests() {
    let node = Node::new(false);
    let actions = node.handle_command(NetworkCommand::GetClock { peer_id: "p".to_string() });
    assert!(matches!(
        &actions[..],
        [SwarmAction::SendRequest { peer, request: SyncRequest::GetClock }] if peer == "p"
    ));
    let mut clock = StringMap::new();
    clock.insert("A".to_string(), 3u64);
    let actions = node.handle_command(NetworkCommand::GetEvents { peer_id: "p".to_string(), clock });
    match &actions[..] {
        [SwarmAction::SendRequest { peer, request: SyncRequest::GetEvents { clock } }] => {
            assert_eq!(peer, "p");
            assert_eq!(clock.get("A"), Some(&3));
        }
        other => panic!("unexpected {other:?}"),
    }
    let actions = node.handle_command(NetworkCommand::SendTab {
        peer_id: "p".to_string(),
        url: "u".to_string(),
        title: None,
        from_device: "A".to_string(),
    });
    assert!(matches!(
        &actions[..],
        [SwarmAction::SendRequest { request: SyncRequest::SendTab { url, title: None, from_device }, .. }]
            if url == "u" && from_device == "A"
    ));
    let actions = node.handle_command(NetworkCommand::PushEvents {
        peer_id: "p".to_string(),
        events: Vec::new(),
    });
    assert!(matches!(
        &actions[..],
        [SwarmAction::SendRequest { request: SyncRequest::PushEvents { events }, .. }] if events.is_empty()
    ));
    let actions = node.handle_command(NetworkCommand::RespondClock {
        request_id: 4,
        clock: StringMap::new(),
        device_id: "A".to_string(),
        device_name: "n".to_string(),
    });
    assert!(matches!(
        &actions[..],
        [SwarmAction::SendResponse { request_id: 4, response: SyncResponse::Clock { device_id, .. } }]
            if device_id == "A"
    ));
    let actions =
        node.handle_command(NetworkCommand::RespondEvents { request_id: 5, events: Vec::new() });
    assert!(matches!(
        &actions[..],
        [SwarmAction::SendResponse { request_id: 5, response: SyncResponse::Events { .. } }]
    ));
    let actions = node.handle_command(NetworkCommand::Dial { addr: "/ip4/1.2.3.4".to_string() });
    assert!(matches!(&actions[..], [SwarmAction::Dial { addr }] if addr == "/ip4/1.2.3.4"));
    let actions = node.handle_command(NetworkCommand::AddBootstrapPeer {
        peer_id: "p".to_string(),
        addr: "a".to_string(),
    });
    assert!(matches!(
        &actions[..],
        [SwarmAction::AddAddress { peer, addr }, SwarmAction::Bootstrap] if peer == "p" && addr == "a"
    ));
}

#[test]
fn the_node_follows_the_overlay() {
    let mut node = Node::new(true);
    let announce = |list: &[(&str, &str)]| SwarmEvent::Discovered {
        peers: list.iter().map(|(p, a)| (p.to_string(), a.to_string())).collect(),
    };
    // a new peer is remembered, dialled and told; a repeated one is not
    let actions = node.handle_event(announce(&[("peer-a", "a1"), ("peer-b", "a2"), ("peer-a", "a1b")]));
    assert_eq!(actions.len(), 6);
    assert!(matches!(&actions[0], SwarmAction::AddAddress { peer, addr } if peer == "peer-a" && addr == "a1"));
    assert!(matches!(&actions[1], SwarmAction::Dial { addr } if addr == "a1"));
    assert!(matches!(
        &actions[2],
        SwarmAction::Emit(NetworkEvent::PeerDiscovered { peer_id, device_name: None }) if peer_id == "peer-a"
    ));
    assert!(matches!(&actions[4], SwarmAction::Dial { addr } if addr == "a2"));
    assert!(node.handle_event(announce(&[("peer-b", "a2")])).is_empty());
    // after the announcement ran out the peer is new again
    assert!(node.handle_event(SwarmEvent::Expired { peers: vec!["peer-b".to_string()] }).is_empty());
    assert_eq!(node.handle_event(announce(&[("peer-b", "a2"), ("peer-a", "a1")])).len(), 3);

    // identification records the name
    let actions = node.handle_event(SwarmEvent::Identified {
        peer: "peer-a".to_string(),
        agent_version: "laptop".to_string(),
        listen_addrs: vec!["l1".to_string(), "l2".to_string()],
    });
    assert_eq!(actions.len(), 3);
    assert!(matches!(&actions[1], SwarmAction::AddAddress { peer, addr } if peer == "peer-a" && addr == "l2"));
    assert!(matches!(
        &actions[2],
        SwarmAction::Emit(NetworkEvent::PeerDiscovered { device_name: Some(name), .. }) if name == "laptop"
    ));
    assert_eq!(node.peers().get("peer-a").map(String::as_str), Some("laptop"));
    let polls = node.periodic_sync();
    assert!(matches!(&polls[..], [NetworkCommand::GetClock { peer_id }] if peer_id == "peer-a"));

    // requests and responses are routed
    let actions = node.handle_event(SwarmEvent::Request {
        peer: "peer-a".to_string(),
        request_id: 9,
        request: SyncRequest::PushEvents { events: Vec::new() },
    });
    assert!(matches!(
        &actions[..],
        [
            SwarmAction::Emit(NetworkEvent::EventsReceived { from, .. }),
            SwarmAction::SendResponse { request_id: 9, response: SyncResponse::Ack { count: 0 } }
        ] if from == "peer-a"
    ));
    let actions = node.handle_event(SwarmEvent::Request {
        peer: "peer-a".to_string(),
        request_id: 10,
        request: SyncRequest::GetClock,
    });
    assert!(matches!(
        &actions[..],
        [SwarmAction::Emit(NetworkEvent::ClockRequested { request_id: 10, .. })]
    ));
    let actions = node.handle_event(SwarmEvent::Response {
        peer: "peer-a".to_string(),
        response: SyncResponse::Events { events: Vec::new() },
    });
    assert!(matches!(&actions[..], [SwarmAction::Emit(NetworkEvent::EventsReceived { .. })]));
    assert!(node
        .handle_event(SwarmEvent::Response { peer: "peer-a".to_string(), response: SyncResponse::TabReceived })
        .is_empty());

    // a closed connection forgets the name
    let actions = node.handle_event(SwarmEvent::ConnectionClosed { peer: "peer-a".to_string() });
    assert!(matches!(
        &actions[..],
        [SwarmAction::Emit(NetworkEvent::PeerDisconnected { peer_id })] if peer_id == "peer-a"
    ));
    assert!(node.peers().is_empty());
    assert!(node.periodic_sync().is_empty());

    // without the hash table no address is added on identification
    let mut plain = Node::new(false);
    let actions = plain.handle_event(SwarmEvent::Identified {
        peer: "p".to_string(),
        agent_version: "n".to_string(),
        listen_addrs: vec!["l1".to_string()],
    });
    assert_eq!(actions.len(), 1);
}

#[test]
fn the_queue_is_flushed_when_the_browser_lets_go() {
    assert!(flush_due(true, false));
    assert!(!flush_due(true, true));
    assert!(!flush_due(false, false));
    assert!(!flush_due(false, true));
}

#[test]
fn a_peer_lacks_what_its_clock_has_not_seen() {
    let make = |id: u128, device: &str, count: u64| {
        let mut clock = VectorClock::new();
        clock.set(device, count);
        EventEnvelope::with_stamp(
            id,
            id as i64,
            device.to_string(),
            clock,
            Event::PrefRemoved { key: "k".to_string() },
        )
    };
    let log = vec![make(1, "A", 1), make(2, "A", 2), make(3, "B", 1), make(4, "A", 3)];
    let mut peer = VectorClock::new();
    peer.set("A", 2);
    let missing: Vec<u128> = events_missing_at(&log, &peer).iter().map(|e| e.id).collect();
    assert_eq!(missing, vec![3, 4]);
    let all: Vec<u128> =
        events_missing_at(&log, &VectorClock::new()).iter().map(|e| e.id).collect();
    assert_eq!(all, vec![1, 2, 3, 4]);
    peer.set("A", 3);
    peer.set("B", 1);
    assert!(events_missing_at(&log, &peer).is_empty());
}

#[test]
fn manifests() {
    let m = manifest_from_fields(Some("test@example.com"), Some("Test Extension"), Some("1.0.0"));
    assert_eq!((m.id.as_str(), m.name.as_str(), m.version.as_str()),
        ("test@example.com", "Test Extension", "1.0.0"));
    let m = manifest_from_fields(None, Some("My Cool Extension"), Some("3.0.0"));
    assert_eq!(m.id, "my-cool-extension@local");
    assert_eq!(m.name, "My Cool Extension");
    let m = manifest_from_fields(None, None, None);
    assert_eq!(m.id, "unknown@local");
    assert_eq!(m.name, "Unknown Extension");
    assert_eq!(m.version, "0.0.0");
}

#[test]
fn records_of_the_profile() {
    assert!(extension_from_addon("t@x", "theme", None, Some("T"), None).is_none());
    let e = extension_from_addon("e@x", "extension", Some("Localised"), Some("Plain"), Some("u"))
        .unwrap();
    assert_eq!((e.id.as_str(), e.name.as_str(), e.url.as_deref()), ("e@x", "Localised", Some("u")));
    assert_eq!(extension_from_addon("e@x", "extension", None, Some("Plain"), None).unwrap().name, "Plain");
    assert_eq!(extension_from_addon("e@x", "extension", None, None, None).unwrap().name, "e@x");

    let s = search_engine_from_record("Duck Duck Go", None, Some("path"), "duck-duck-go");
    assert_eq!((s.id.as_str(), s.name.as_str(), s.url.as_str(), s.is_default),
        ("duck-duck-go", "Duck Duck Go", "path", true));
    let s = search_engine_from_record("Google", Some("g"), None, "google");
    assert_eq!((s.id.as_str(), s.url.as_str(), s.is_default), ("g", "", false));

    let container = |id: u32| Container {
        user_context_id: id,
        name: String::new(),
        icon: String::new(),
        color: String::new(),
        is_public: true,
    };
    assert_eq!(max_context_id(&[]), 0);
    assert_eq!(max_context_id(&[container(3), container(9), container(4)]), 9);
}

#[test]
fn the_default_profile() {
    let entry = |path: &str, is_default: bool, has_prefs: bool| ProfileEntry {
        path: path.to_string(),
        is_relative: true,
        is_default,
        has_prefs,
    };
    // the installation's default wins
    let entries = vec![entry("j5digu6d.default", true, true), entry("umj8y4dm.default-release", false, true)];
    assert_eq!(
        select_profile("/base", &entries, Some("umj8y4dm.default-release")),
        Some("/base/umj8y4dm.default-release".to_string())
    );
    // the default flag is the fallback
    assert_eq!(select_profile("/base", &entries, None), Some("/base/j5digu6d.default".to_string()));
    assert_eq!(
        select_profile("/base", &entries, Some("unknown")),
        Some("/base/j5digu6d.default".to_string())
    );
    // a profile without a preferences file is passed over
    let entries = vec![entry("xyz123.profile", false, true), entry("abc.default", true, false)];
    assert_eq!(select_profile("/base", &entries, Some("abc.default")), None);
    assert_eq!(select_profile("/base", &[], None), None);
    // sub-directories and absolute paths
    let mut absolute = entry("/elsewhere/p", true, true);
    absolute.is_relative = false;
    assert_eq!(
        select_profile("/base", &[entry("Profiles/abc123.default", true, true)], None),
        Some("/base/Profiles/abc123.default".to_string())
    );
    assert_eq!(select_profile("/base", &[absolute], None), Some("/elsewhere/p".to_string()));
}
