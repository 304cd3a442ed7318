use wolfpack::events::types::{Event, EventEnvelope, PrefValue};
use wolfpack::events::VectorClock;
use wolfpack::profile::{Container, Extension, Handler};
use wolfpack::sync::{diff_containers, diff_extensions, diff_handlers, diff_prefs, merge_events};
use wolfpack::table::StringMap;

fn make_extension(id: &str, name: &str, url: Option<&str>) -> Extension {
    Extension { id: id.to_string(), name: name.to_string(), url: url.map(String::from) }
}

fn handlers_of(pairs: Vec<(&str, String)>) -> StringMap<String> {
    let mut m = StringMap::new();
    for (k, v) in pairs {
        m.insert(k.to_string(), v);
    }
    m
}

fn prefs_of(pairs: Vec<(&str, PrefValue)>) -> StringMap<PrefValue> {
    let mut m = StringMap::new();
    for (k, v) in pairs {
        m.insert(k.to_string(), v);
    }
    m
}

#[test]
fn test_diff_extensions_no_changes() {
    let current = vec![
        make_extension("ext1@test.com", "Extension 1", None),
        make_extension("ext2@test.com", "Extension 2", Some("https://example.com")),
    ];
    let previous = vec!["ext1@test.com".to_string(), "ext2@test.com".to_string()];

    let events = diff_extensions(&current, &previous);
    assert!(events.is_empty());
}

#[test]
fn test_diff_extensions_added() {
    let current = vec![
        make_extension("ext1@test.com", "Extension 1", None),
        make_extension("ext2@test.com", "Extension 2", Some("https://example.com")),
    ];
    let previous = vec!["ext1@test.com".to_string()];

    let events = diff_extensions(&current, &previous);
    assert_eq!(events.len(), 1);
    match &events[0] {
        Event::ExtensionAdded { id, name, url } => {
            assert_eq!(id, "ext2@test.com");
            assert_eq!(name, "Extension 2");
            assert_eq!(url, &Some("https://example.com".to_string()));
        }
        _ => panic!("Expected ExtensionAdded event"),
    }
}

#[test]
fn test_diff_extensions_removed() {
    let current = vec![make_extension("ext1@test.com", "Extension 1", None)];
    let previous = vec!["ext1@test.com".to_string(), "ext2@test.com".to_string()];

    let events = diff_extensions(&current, &previous);
    assert_eq!(events.len(), 1);
    match &events[0] {
        Event::ExtensionRemoved { id } => {
            assert_eq!(id, "ext2@test.com");
        }
        _ => panic!("Expected ExtensionRemoved event"),
    }
}

#[test]
fn test_diff_extensions_added_and_removed() {
    let current = vec![
        make_extension("ext1@test.com", "Extension 1", None),
        make_extension("ext3@test.com", "Extension 3", None),
    ];
    let previous = vec!["ext1@test.com".to_string(), "ext2@test.com".to_string()];

    let events = diff_extensions(&current, &previous);
    assert_eq!(events.len(), 2);

    let added = events.iter().filter(|e| matches!(e, Event::ExtensionAdded { .. })).count();
    let removed = events.iter().filter(|e| matches!(e, Event::ExtensionRemoved { .. })).count();
    assert_eq!(added, 1);
    assert_eq!(removed, 1);
    // additions come first
    assert!(matches!(events[0], Event::ExtensionAdded { .. }));
}

#[test]
fn test_diff_extensions_empty_current() {
    let current: Vec<Extension> = vec![];
    let previous = vec!["ext1@test.com".to_string(), "ext2@test.com".to_string()];

    let events = diff_extensions(&current, &previous);
    assert_eq!(events.len(), 2);
    assert!(events.iter().all(|e| matches!(e, Event::ExtensionRemoved { .. })));
}

#[test]
fn test_diff_extensions_empty_previous() {
    let current = vec![
        make_extension("ext1@test.com", "Extension 1", None),
        make_extension("ext2@test.com", "Extension 2", None),
    ];
    let previous: Vec<String> = vec![];

    let events = diff_extensions(&current, &previous);
    assert_eq!(events.len(), 2);
    assert!(events.iter().all(|e| matches!(e, Event::ExtensionAdded { .. })));
}

#[test]
fn test_diff_extensions_both_empty() {
    let current: Vec<Extension> = vec![];
    let previous: Vec<String> = vec![];

    let events = diff_extensions(&current, &previous);
    assert!(events.is_empty());
}

// Container diff tests

fn make_container(id: u32, name: &str, color: &str, icon: &str) -> Container {
    Container {
        user_context_id: id,
        name: name.to_string(),
        color: color.to_string(),
        icon: icon.to_string(),
        is_public: true,
    }
}

#[test]
fn test_diff_containers_no_changes() {
    let current = vec![
        make_container(1, "Personal", "blue", "fingerprint"),
        make_container(2, "Work", "orange", "briefcase"),
    ];
    let known = vec!["1".to_string(), "2".to_string()];

    let events = diff_containers(&current, &known);
    assert!(events.is_empty());
}

#[test]
fn test_diff_containers_added() {
    let current = vec![
        make_container(1, "Personal", "blue", "fingerprint"),
        make_container(2, "Work", "orange", "briefcase"),
    ];
    let known = vec!["1".to_string()];

    let events = diff_containers(&current, &known);
    assert_eq!(events.len(), 1);
    match &events[0] {
        Event::ContainerAdded { id, name, color, icon } => {
            assert_eq!(id, "2");
            assert_eq!(name, "Work");
            assert_eq!(color, "orange");
            assert_eq!(icon, "briefcase");
        }
        _ => panic!("Expected ContainerAdded event"),
    }
}

#[test]
fn test_diff_containers_removed() {
    let current = vec![make_container(1, "Personal", "blue", "fingerprint")];
    let known = vec!["1".to_string(), "2".to_string()];

    let events = diff_containers(&current, &known);
    assert_eq!(events.len(), 1);
    match &events[0] {
        Event::ContainerRemoved { id } => {
            assert_eq!(id, "2");
        }
        _ => panic!("Expected ContainerRemoved event"),
    }
}

#[test]
fn test_diff_containers_added_and_removed() {
    let current = vec![
        make_container(1, "Personal", "blue", "fingerprint"),
        make_container(3, "Shopping", "pink", "cart"),
    ];
    let known = vec!["1".to_string(), "2".to_string()];

    let events = diff_containers(&current, &known);
    assert_eq!(events.len(), 2);

    let added = events.iter().filter(|e| matches!(e, Event::ContainerAdded { .. })).count();
    let removed = events.iter().filter(|e| matches!(e, Event::ContainerRemoved { .. })).count();
    assert_eq!(added, 1);
    assert_eq!(removed, 1);
}

#[test]
fn test_diff_containers_empty() {
    let current: Vec<Container> = vec![];
    let known: Vec<String> = vec![];

    let events = diff_containers(&current, &known);
    assert!(events.is_empty());
}

#[test]
fn container_identifiers_are_decimal() {
    let current = vec![make_container(0, "a", "b", "c"), make_container(4294967295, "d", "e", "f")];
    let known = vec!["00".to_string(), "4294967295".to_string()];
    let events = diff_containers(&current, &known);
    assert_eq!(
        events,
        vec![
            Event::ContainerAdded {
                id: "0".to_string(),
                name: "a".to_string(),
                color: "b".to_string(),
                icon: "c".to_string()
            },
            Event::ContainerRemoved { id: "00".to_string() },
        ]
    );
}

// Handler diff tests

fn make_handler(protocol: &str, handler: &str) -> Handler {
    Handler { protocol: protocol.to_string(), handler: handler.to_string() }
}

#[test]
fn test_diff_handlers_no_changes() {
    let current =
        vec![make_handler("mailto", "gmail.com"), make_handler("web+custom", "example.com")];
    let known: StringMap<String> = handlers_of(vec![
        ("mailto", "gmail.com".to_string()),
        ("web+custom", "example.com".to_string()),
    ]);

    let events = diff_handlers(&current, &known);
    assert!(events.is_empty());
}

#[test]
fn test_diff_handlers_added() {
    let current =
        vec![make_handler("mailto", "gmail.com"), make_handler("web+custom", "example.com")];
    let known: StringMap<String> = handlers_of(vec![("mailto", "gmail.com".to_string())]);

    let events = diff_handlers(&current, &known);
    assert_eq!(events.len(), 1);
    match &events[0] {
        Event::HandlerSet { protocol, handler } => {
            assert_eq!(protocol, "web+custom");
            assert_eq!(handler, "example.com");
        }
        _ => panic!("Expected HandlerSet event"),
    }
}

#[test]
fn test_diff_handlers_changed() {
    let current = vec![make_handler("mailto", "outlook.com")];
    let known: StringMap<String> = handlers_of(vec![("mailto", "gmail.com".to_string())]);

    let events = diff_handlers(&current, &known);
    assert_eq!(events.len(), 1);
    match &events[0] {
        Event::HandlerSet { protocol, handler } => {
            assert_eq!(protocol, "mailto");
            assert_eq!(handler, "outlook.com");
        }
        _ => panic!("Expected HandlerSet event"),
    }
}

#[test]
fn test_diff_handlers_removed() {
    let current = vec![make_handler("mailto", "gmail.com")];
    let known: StringMap<String> = handlers_of(vec![
        ("mailto", "gmail.com".to_string()),
        ("web+custom", "example.com".to_string()),
    ]);

    let events = diff_handlers(&current, &known);
    assert_eq!(events.len(), 1);
    match &events[0] {
        Event::HandlerRemoved { protocol } => {
            assert_eq!(protocol, "web+custom");
        }
        _ => panic!("Expected HandlerRemoved event"),
    }
}

#[test]
fn test_diff_handlers_empty() {
    let current: Vec<Handler> = vec![];
    let known: StringMap<String> = StringMap::new();

    let events = diff_handlers(&current, &known);
    assert!(events.is_empty());
}

// Pref diff tests

#[test]
fn test_diff_prefs_no_changes() {
    let current: StringMap<PrefValue> = prefs_of(vec![
        ("browser.startup.homepage", PrefValue::String("https://example.com".to_string())),
        ("browser.tabs.warnOnClose", PrefValue::Bool(true)),
    ]);

    let known = current.duplicate();

    let events = diff_prefs(&current, &known);
    assert!(events.is_empty());
}

#[test]
fn test_diff_prefs_added() {
    let current: StringMap<PrefValue> = prefs_of(vec![
        ("browser.startup.homepage", PrefValue::String("https://example.com".to_string())),
        ("browser.tabs.warnOnClose", PrefValue::Bool(true)),
    ]);

    let known: StringMap<PrefValue> = prefs_of(vec![(
        "browser.startup.homepage",
        PrefValue::String("https://example.com".to_string()),
    )]);

    let events = diff_prefs(&current, &known);
    assert_eq!(events.len(), 1);
    match &events[0] {
        Event::PrefSet { key, value } => {
            assert_eq!(key, "browser.tabs.warnOnClose");
            assert_eq!(value, &PrefValue::Bool(true));
        }
        _ => panic!("Expected PrefSet event"),
    }
}

#[test]
fn test_diff_prefs_changed() {
    let current: StringMap<PrefValue> = prefs_of(vec![(
        "browser.startup.homepage",
        PrefValue::String("https://new.com".to_string()),
    )]);

    let known: StringMap<PrefValue> = prefs_of(vec![(
        "browser.startup.homepage",
        PrefValue::String("https://old.com".to_string()),
    )]);

    let events = diff_prefs(&current, &known);
    assert_eq!(events.len(), 1);
    match &events[0] {
        Event::PrefSet { key, value } => {
            assert_eq!(key, "browser.startup.homepage");
            assert_eq!(value, &PrefValue::String("https://new.com".to_string()));
        }
        _ => panic!("Expected PrefSet event"),
    }
}

#[test]
fn test_diff_prefs_removed() {
    let current: StringMap<PrefValue> = prefs_of(vec![(
        "browser.startup.homepage",
        PrefValue::String("https://example.com".to_string()),
    )]);

    let known: StringMap<PrefValue> = prefs_of(vec![
        ("browser.startup.homepage", PrefValue::String("https://example.com".to_string())),
        ("browser.tabs.warnOnClose", PrefValue::Bool(true)),
    ]);

    let events = diff_prefs(&current, &known);
    assert_eq!(events.len(), 1);
    match &events[0] {
        Event::PrefRemoved { key } => {
            assert_eq!(key, "browser.tabs.warnOnClose");
        }
        _ => panic!("Expected PrefRemoved event"),
    }
}

#[test]
fn test_diff_prefs_int_value() {
    let current: StringMap<PrefValue> =
        prefs_of(vec![("browser.cache.disk.capacity", PrefValue::Int(1024))]);

    let known: StringMap<PrefValue> =
        prefs_of(vec![("browser.cache.disk.capacity", PrefValue::Int(512))]);

    let events = diff_prefs(&current, &known);
    assert_eq!(events.len(), 1);
    match &events[0] {
        Event::PrefSet { key, value } => {
            assert_eq!(key, "browser.cache.disk.capacity");
            assert_eq!(value, &PrefValue::Int(1024));
        }
        _ => panic!("Expected PrefSet event"),
    }
}

#[test]
fn test_diff_prefs_empty() {
    let current: StringMap<PrefValue> = StringMap::new();
    let known: StringMap<PrefValue> = StringMap::new();

    let events = diff_prefs(&current, &known);
    assert!(events.is_empty());
}

#[test]
fn a_pref_that_changes_its_type_is_set_again() {
    let current: StringMap<PrefValue> = prefs_of(vec![("k", PrefValue::String("1".to_string()))]);
    let known: StringMap<PrefValue> = prefs_of(vec![("k", PrefValue::Int(1))]);
    assert_eq!(
        diff_prefs(&current, &known),
        vec![Event::PrefSet { key: "k".to_string(), value: PrefValue::String("1".to_string()) }]
    );
}

#[test]
fn test_merge_events() {
    let mut clock1 = VectorClock::new();
    clock1.set("A", 1);

    let mut clock2 = VectorClock::new();
    clock2.set("B", 1);

    let event1 = EventEnvelope::new(
        "A".to_string(),
        clock1.clone(),
        Event::ExtensionAdded { id: "ext1".to_string(), name: "Ext 1".to_string(), url: None },
    );

    let event2 = EventEnvelope::new(
        "B".to_string(),
        clock2.clone(),
        Event::ExtensionAdded { id: "ext2".to_string(), name: "Ext 2".to_string(), url: None },
    );

    let (merged, new_clock) = merge_events(&[event1], &[event2], &clock1);

    assert_eq!(merged.len(), 2);
    assert_eq!(new_clock.get("A"), 1);
    assert_eq!(new_clock.get("B"), 1);
}

#[test]
fn merge_keeps_first_occurrences_in_order_of_application() {
    let make = |id: u128, timestamp: i64, device: &str, count: u64, handler: &str| {
        let mut clock = VectorClock::new();
        clock.set(device, count);
        EventEnvelope::with_stamp(
            id,
            timestamp,
            device.to_string(),
            clock,
            Event::HandlerSet { protocol: "p".to_string(), handler: handler.to_string() },
        )
    };
    let local = vec![make(3, 30, "A", 2, "local-3"), make(1, 10, "A", 1, "local-1")];
    let remote =
        vec![make(2, 20, "B", 5, "remote-2"), make(3, 5, "B", 9, "remote-3"), make(4, 20, "C", 1, "remote-4")];
    let mut base = VectorClock::new();
    base.set("A", 1);
    base.set("D", 4);

    let (merged, clock) = merge_events(&local, &remote, &base);
    let seen: Vec<(u128, String)> = merged
        .iter()
        .map(|e| match &e.event {
            Event::HandlerSet { handler, .. } => (e.id, handler.clone()),
            _ => unreachable!(),
        })
        .collect();
    assert_eq!(
        seen,
        vec![
            (1, "local-1".to_string()),
            (2, "remote-2".to_string()),
            (4, "remote-4".to_string()),
            (3, "local-3".to_string()),
        ]
    );
    // the clock of the duplicate is not merged
    assert_eq!(clock.get("A"), 2);
    assert_eq!(clock.get("B"), 5);
    assert_eq!(clock.get("C"), 1);
    assert_eq!(clock.get("D"), 4);
}
