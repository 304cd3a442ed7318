use wolfpack::config::{
    Config, ConfigDefaults, ConfigError, ConfigField, ConfigItem, ConfigNode, ConfigValue,
};
use wolfpack::table::StringMap;

fn defaults() -> ConfigDefaults {
    ConfigDefaults {
        device_id: "fallback-id".to_string(),
        device_name: "fallback-name".to_string(),
        sync_dir: "/fallback/sync".to_string(),
    }
}

fn section(fields: Vec<(&str, ConfigField)>) -> ConfigNode {
    let mut map = StringMap::new();
    for (key, value) in fields {
        map.insert(key.to_string(), value);
    }
    ConfigNode::Object(map)
}

fn tree(sections: Vec<(&str, ConfigNode)>) -> ConfigValue {
    let mut map = StringMap::new();
    for (key, value) in sections {
        map.insert(key.to_string(), value);
    }
    ConfigValue::Object(map)
}

fn text(s: &str) -> ConfigField {
    ConfigField::Text(s.to_string())
}

fn item_of(value: &toml::Value) -> ConfigItem {
    match value {
        toml::Value::String(s) => ConfigItem::Text(s.clone()),
        _ => ConfigItem::Other,
    }
}

fn field_of(value: &toml::Value) -> ConfigField {
    match value {
        toml::Value::String(s) => ConfigField::Text(s.clone()),
        toml::Value::Integer(n) => ConfigField::Integer(*n),
        toml::Value::Boolean(b) => ConfigField::Bool(*b),
        toml::Value::Array(items) => ConfigField::List(items.iter().map(item_of).collect()),
        _ => ConfigField::Other,
    }
}

fn tree_of(value: &toml::Value) -> ConfigValue {
    match value {
        toml::Value::Table(table) => {
            let mut sections = StringMap::new();
            for (key, value) in table {
                let node = match value {
                    toml::Value::Table(t) => {
                        let mut fields = StringMap::new();
                        for (k, v) in t {
                            fields.insert(k.clone(), field_of(v));
                        }
                        ConfigNode::Object(fields)
                    }
                    _ => ConfigNode::Other,
                };
                sections.insert(key.clone(), node);
            }
            ConfigValue::Object(sections)
        }
        _ => ConfigValue::Other,
    }
}

#[test]
fn test_from_value_config() {
    let root = tree(vec![
        ("device", section(vec![("id", text("test-id")), ("name", text("test-name"))])),
        ("paths", section(vec![("sync_dir", text("/tmp/sync"))])),
    ]);
    let config = Config::from_value(&root, &defaults()).unwrap();
    assert_eq!(config.device.id, "test-id");
    assert_eq!(config.device.name, "test-name");
    assert_eq!(config.paths.sync_dir, "/tmp/sync");
    assert_eq!(config.paths.profile, None);
    assert_eq!(config.sync.listen_port, None);
    assert!(!config.sync.enable_mdns);
    assert!(!config.sync.enable_dht);
    assert!(config.sync.bootstrap_peers.is_empty());
    assert_eq!(config.api.port, Some(9778));
    assert!(config.prefs.whitelist.is_empty());
}

#[test]
fn a_silent_tree_takes_the_defaults() {
    let root = tree(vec![("device", section(vec![])), ("paths", section(vec![]))]);
    let config = Config::from_value(&root, &defaults()).unwrap();
    assert_eq!(config.device.id, "fallback-id");
    assert_eq!(config.device.name, "fallback-name");
    assert_eq!(config.paths.sync_dir, "/fallback/sync");

    let root = tree(vec![
        ("device", section(vec![("id", ConfigField::Integer(7)), ("name", ConfigField::Other)])),
        ("paths", section(vec![("profile", ConfigField::Bool(true))])),
        ("api", section(vec![("port", text("8080"))])),
    ]);
    let config = Config::from_value(&root, &defaults()).unwrap();
    assert_eq!(config.device.id, "fallback-id");
    assert_eq!(config.device.name, "fallback-name");
    assert_eq!(config.paths.profile, None);
    assert_eq!(config.api.port, Some(9778));
}

#[test]
fn sections_are_read_field_by_field() {
    let root = tree(vec![
        ("device", section(vec![("id", text("d")), ("name", text("n"))])),
        ("paths", section(vec![("profile", text("/p")), ("sync_dir", text("/s"))])),
        (
            "sync",
            section(vec![
                ("listen_port", ConfigField::Integer(9999)),
                ("enable_mdns", ConfigField::Bool(true)),
                ("enable_dht", text("yes")),
                (
                    "bootstrap_peers",
                    ConfigField::List(vec![
                        ConfigItem::Text("/ip4/1.2.3.4/tcp/4001".to_string()),
                        ConfigItem::Other,
                        ConfigItem::Text("/ip4/5.6.7.8/tcp/4001".to_string()),
                    ]),
                ),
            ]),
        ),
        ("api", section(vec![("port", ConfigField::Integer(8080))])),
        (
            "prefs",
            section(vec![(
                "whitelist",
                ConfigField::List(vec![ConfigItem::Text("browser.*".to_string())]),
            )]),
        ),
    ]);
    let config = Config::from_value(&root, &defaults()).unwrap();
    assert_eq!(config.paths.profile, Some("/p".to_string()));
    assert_eq!(config.paths.sync_dir, "/s");
    assert_eq!(config.sync.listen_port, Some(9999));
    assert!(config.sync.enable_mdns);
    assert!(!config.sync.enable_dht);
    assert_eq!(config.sync.bootstrap_peers, vec!["/ip4/1.2.3.4/tcp/4001", "/ip4/5.6.7.8/tcp/4001"]);
    assert_eq!(config.api.port, Some(8080));
    assert_eq!(config.prefs.whitelist, vec!["browser.*"]);
}

#[test]
fn ports_keep_their_low_sixteen_bits() {
    let with_port = |n: i64| {
        let root = tree(vec![
            ("device", section(vec![])),
            ("paths", section(vec![])),
            ("sync", section(vec![("listen_port", ConfigField::Integer(n))])),
        ]);
        Config::from_value(&root, &defaults()).unwrap().sync.listen_port
    };
    assert_eq!(with_port(0), Some(0));
    assert_eq!(with_port(65535), Some(65535));
    assert_eq!(with_port(65536), Some(0));
    assert_eq!(with_port(65536 + 4001), Some(4001));
    assert_eq!(with_port(-1), None);
}

#[test]
fn each_fault_has_its_error() {
    let d = defaults();
    let fault = |root: ConfigValue| Config::from_value(&root, &defaults()).unwrap_err();
    assert_eq!(Config::from_value(&ConfigValue::Other, &d).unwrap_err(), ConfigError::MalformedRoot);
    assert_eq!(fault(tree(vec![])), ConfigError::MalformedDevice);
    assert_eq!(
        fault(tree(vec![("device", ConfigNode::Other), ("paths", section(vec![]))])),
        ConfigError::MalformedDevice
    );
    assert_eq!(fault(tree(vec![("device", section(vec![]))])), ConfigError::MalformedPaths);
    assert_eq!(
        fault(tree(vec![("paths", ConfigNode::Other), ("device", section(vec![]))])),
        ConfigError::MalformedPaths
    );
    let with = |key: &str| {
        tree(vec![("device", section(vec![])), ("paths", section(vec![])), (key, ConfigNode::Other)])
    };
    assert_eq!(fault(with("sync")), ConfigError::MalformedSync);
    assert_eq!(fault(with("api")), ConfigError::MalformedApi);
    assert_eq!(fault(with("prefs")), ConfigError::MalformedPrefs);
    assert!(Config::from_value(&with("other"), &d).is_ok());
    assert_eq!(ConfigError::MalformedSync.message(), "SyncConfig: expected object");
    assert_eq!(ConfigError::MalformedRoot.message(), "Config: expected object");
}

#[test]
fn test_config_with_custom_values() {
    let mut config = Config::default();
    config.device.name = "test-device".to_string();
    config.paths.profile = Some("/custom/profile".to_string());
    config.sync.enable_dht = true;
    config.sync.listen_port = Some(9999);
    config.sync.bootstrap_peers = vec!["/ip4/1.2.3.4/tcp/4001".to_string()];
    config.api.port = Some(8080);
    config.prefs.whitelist = vec!["browser.*".to_string(), "extensions.*".to_string()];

    let value: toml::Value = toml::from_str(&config.to_toml_string()).unwrap();
    let loaded = Config::from_value(&tree_of(&value), &defaults()).unwrap();
    assert_eq!(loaded.device.name, "test-device");
    assert_eq!(loaded.paths.profile, Some("/custom/profile".to_string()));
    assert!(loaded.sync.enable_dht);
    assert_eq!(loaded.sync.listen_port, Some(9999));
    assert_eq!(loaded.sync.bootstrap_peers.len(), 1);
    assert_eq!(loaded.api.port, Some(8080));
    assert_eq!(loaded.prefs.whitelist.len(), 2);
}

#[test]
fn test_config_roundtrip() {
    let config = Config::default();
    let value: toml::Value = toml::from_str(&config.to_toml_string()).unwrap();
    let loaded = Config::from_value(&tree_of(&value), &defaults()).unwrap();
    assert_eq!(config.device.id, loaded.device.id);
    assert_eq!(config.device.name, loaded.device.name);
    assert_eq!(config.paths.sync_dir, loaded.paths.sync_dir);
    assert_eq!(config.paths.profile, loaded.paths.profile);
    assert_eq!(config.sync.listen_port, loaded.sync.listen_port);
    assert_eq!(config.api.port, loaded.api.port);
    assert_eq!(config.prefs.whitelist, loaded.prefs.whitelist);
}
