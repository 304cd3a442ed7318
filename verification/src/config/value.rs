//! Reading a configuration from a tree of values, as a parser of a
//! configuration file hands it over.

use vstd::prelude::*;
use crate::config::{
    ApiConfig, Config, ConfigError, ConfigView, DeviceConfig, PathConfig, PrefsConfig, SyncConfig,
    DEFAULT_API_PORT,
};
use crate::table::StringMap;

verus! {

/// An entry of a list.
#[derive(Debug)]
pub enum ConfigItem {
    Text(String),
    /// A value of any other kind.
    Other,
}

pub enum ConfigItemView {
    Text(Seq<char>),
    Other,
}

impl View for ConfigItem {
    type V = ConfigItemView;

    open spec fn view(&self) -> ConfigItemView {
        match self {
            ConfigItem::Text(s) => ConfigItemView::Text(s@),
            ConfigItem::Other => ConfigItemView::Other,
        }
    }
}

impl DeepView for ConfigItem {
    type V = ConfigItemView;

    open spec fn deep_view(&self) -> ConfigItemView {
        self.view()
    }
}

/// The value of a key inside a section.
#[derive(Debug)]
pub enum ConfigField {
    Text(String),
    Integer(i64),
    Bool(bool),
    List(Vec<ConfigItem>),
    /// A value of any other kind.
    Other,
}

pub enum ConfigFieldView {
    Text(Seq<char>),
    Integer(i64),
    Bool(bool),
    List(Seq<ConfigItemView>),
    Other,
}

impl View for ConfigField {
    type V = ConfigFieldView;

    open spec fn view(&self) -> ConfigFieldView {
        match self {
            ConfigField::Text(s) => ConfigFieldView::Text(s@),
            ConfigField::Integer(n) => ConfigFieldView::Integer(*n),
            ConfigField::Bool(b) => ConfigFieldView::Bool(*b),
            ConfigField::List(items) => ConfigFieldView::List(items.deep_view()),
            ConfigField::Other => ConfigFieldView::Other,
        }
    }
}

impl DeepView for ConfigField {
    type V = ConfigFieldView;

    open spec fn deep_view(&self) -> ConfigFieldView {
        self.view()
    }
}

/// What stands under a key of the root: a section with its fields, or a
/// value of another kind.
#[derive(Debug)]
pub enum ConfigNode {
    Object(StringMap<ConfigField>),
    Other,
}

pub enum ConfigNodeView {
    Object(Map<Seq<char>, ConfigFieldView>),
    Other,
}

impl View for ConfigNode {
    type V = ConfigNodeView;

    open spec fn view(&self) -> ConfigNodeView {
        match self {
            ConfigNode::Object(fields) => ConfigNodeView::Object(fields@),
            ConfigNode::Other => ConfigNodeView::Other,
        }
    }
}

impl DeepView for ConfigNode {
    type V = ConfigNodeView;

    open spec fn deep_view(&self) -> ConfigNodeView {
        self.view()
    }
}

/// A configuration tree: an object with its sections, or a value of
/// another kind.
#[derive(Debug)]
pub enum ConfigValue {
    Object(StringMap<ConfigNode>),
    Other,
}

pub enum ConfigValueView {
    Object(Map<Seq<char>, ConfigNodeView>),
    Other,
}

impl View for ConfigValue {
    type V = ConfigValueView;

    open spec fn view(&self) -> ConfigValueView {
        match self {
            ConfigValue::Object(sections) => ConfigValueView::Object(sections@),
            ConfigValue::Other => ConfigValueView::Other,
        }
    }
}

/// What a configuration takes where the tree is silent: the identifier
/// and the name of the device, and the sync root.
#[derive(Debug)]
pub struct ConfigDefaults {
    pub device_id: String,
    pub device_name: String,
    pub sync_dir: String,
}

/// The text under `key`, if there is one.
pub open spec fn text_at(fields: Map<Seq<char>, ConfigFieldView>, key: Seq<char>) -> Option<
    Seq<char>,
> {
    if fields.dom().contains(key) {
        match fields[key] {
            ConfigFieldView::Text(s) => Some(s),
            _ => None,
        }
    } else {
        None
    }
}

/// The truth value under `key`; false where there is none.
pub open spec fn flag_at(fields: Map<Seq<char>, ConfigFieldView>, key: Seq<char>) -> bool {
    fields.dom().contains(key) && fields[key] == ConfigFieldView::Bool(true)
}

/// The port that a number stands for: its low sixteen bits. A negative
/// number is no port.
pub open spec fn port_of(n: i64) -> Option<u16> {
    if n >= 0 {
        Some((n % 65536) as u16)
    } else {
        None
    }
}

/// The port under `key`, if a number stands there.
pub open spec fn port_at(fields: Map<Seq<char>, ConfigFieldView>, key: Seq<char>) -> Option<u16> {
    if fields.dom().contains(key) {
        match fields[key] {
            ConfigFieldView::Integer(n) => port_of(n),
            _ => None,
        }
    } else {
        None
    }
}

/// The texts of a list, in order; entries of other kinds are left out.
pub open spec fn texts_of(items: Seq<ConfigItemView>) -> Seq<Seq<char>>
    decreases items.len(),
{
    if items.len() == 0 {
        Seq::empty()
    } else {
        match items.last() {
            ConfigItemView::Text(s) => texts_of(items.drop_last()).push(s),
            ConfigItemView::Other => texts_of(items.drop_last()),
        }
    }
}

/// The texts of the list under `key`; none where no list stands there.
pub open spec fn texts_at(fields: Map<Seq<char>, ConfigFieldView>, key: Seq<char>) -> Seq<
    Seq<char>,
> {
    if fields.dom().contains(key) {
        match fields[key] {
            ConfigFieldView::List(items) => texts_of(items),
            _ => Seq::empty(),
        }
    } else {
        Seq::empty()
    }
}

/// True when an object stands under `key`.
pub open spec fn has_section(root: Map<Seq<char>, ConfigNodeView>, key: Seq<char>) -> bool {
    root.dom().contains(key) && root[key] is Object
}

/// True when something other than an object stands under `key`.
pub open spec fn has_other(root: Map<Seq<char>, ConfigNodeView>, key: Seq<char>) -> bool {
    root.dom().contains(key) && root[key] is Other
}

/// The fields of an optional section; none where the section is absent.
pub open spec fn fields_of(root: Map<Seq<char>, ConfigNodeView>, key: Seq<char>) -> Option<
    Map<Seq<char>, ConfigFieldView>,
> {
    if has_section(root, key) {
        Some(root[key]->Object_0)
    } else {
        None
    }
}

/// The first fault of a tree, if it has one: the root and the sections
/// `device` and `paths` must be objects; `sync`, `api` and `prefs` may be
/// absent and must be objects otherwise.
pub open spec fn fault_of(value: ConfigValueView) -> Option<ConfigError> {
    match value {
        ConfigValueView::Other => Some(ConfigError::MalformedRoot),
        ConfigValueView::Object(root) => {
            if !has_section(root, "device"@) {
                Some(ConfigError::MalformedDevice)
            } else if !has_section(root, "paths"@) {
                Some(ConfigError::MalformedPaths)
            } else if has_other(root, "sync"@) {
                Some(ConfigError::MalformedSync)
            } else if has_other(root, "api"@) {
                Some(ConfigError::MalformedApi)
            } else if has_other(root, "prefs"@) {
                Some(ConfigError::MalformedPrefs)
            } else {
                None
            }
        },
    }
}

/// The text under `key`, or `fallback` where there is none.
pub open spec fn text_or(
    fields: Map<Seq<char>, ConfigFieldView>,
    key: Seq<char>,
    fallback: Seq<char>,
) -> Seq<char> {
    match text_at(fields, key) {
        Some(s) => s,
        None => fallback,
    }
}

/// The port of the control surface that a section `api` gives: the
/// configured one, else the default; the default too without a section.
pub open spec fn api_port_of(fields: Option<Map<Seq<char>, ConfigFieldView>>) -> Option<u16> {
    match fields {
        Some(f) => match port_at(f, "port"@) {
            Some(p) => Some(p),
            None => Some(DEFAULT_API_PORT),
        },
        None => Some(DEFAULT_API_PORT),
    }
}

/// The configuration that a tree without fault stands for.
pub open spec fn config_of(
    root: Map<Seq<char>, ConfigNodeView>,
    device_id: Seq<char>,
    device_name: Seq<char>,
    sync_dir: Seq<char>,
) -> ConfigView {
    let device = root["device"@]->Object_0;
    let paths = root["paths"@]->Object_0;
    let sync = fields_of(root, "sync"@);
    let prefs = fields_of(root, "prefs"@);
    ConfigView {
        device_id: text_or(device, "id"@, device_id),
        device_name: text_or(device, "name"@, device_name),
        profile: text_at(paths, "profile"@),
        sync_dir: text_or(paths, "sync_dir"@, sync_dir),
        listen_port: match sync {
            Some(f) => port_at(f, "listen_port"@),
            None => None,
        },
        enable_mdns: match sync {
            Some(f) => flag_at(f, "enable_mdns"@),
            None => false,
        },
        enable_dht: match sync {
            Some(f) => flag_at(f, "enable_dht"@),
            None => false,
        },
        bootstrap_peers: match sync {
            Some(f) => texts_at(f, "bootstrap_peers"@),
            None => Seq::empty(),
        },
        api_port: api_port_of(fields_of(root, "api"@)),
        whitelist: match prefs {
            Some(f) => texts_at(f, "whitelist"@),
            None => Seq::empty(),
        },
    }
}

/// The text under `key`, if there is one.
pub fn read_text(fields: &StringMap<ConfigField>, key: &str) -> (r: Option<String>)
    ensures
        r.deep_view() == text_at(fields@, key@),
{
    match fields.get(key) {
        Some(ConfigField::Text(s)) => Some(s.clone()),
        _ => None,
    }
}

/// The truth value under `key`; false where there is none.
pub fn read_flag(fields: &StringMap<ConfigField>, key: &str) -> (r: bool)
    ensures
        r == flag_at(fields@, key@),
{
    match fields.get(key) {
        Some(ConfigField::Bool(b)) => *b,
        _ => false,
    }
}

/// The port under `key`, if a number stands there.
pub fn read_port(fields: &StringMap<ConfigField>, key: &str) -> (r: Option<u16>)
    ensures
        r == port_at(fields@, key@),
{
    match fields.get(key) {
        Some(ConfigField::Integer(n)) => {
            if *n >= 0 {
                Some((*n % 65536) as u16)
            } else {
                None
            }
        },
        _ => None,
    }
}

/// The texts of a list, in order.
pub fn read_items(items: &Vec<ConfigItem>) -> (r: Vec<String>)
    ensures
        r.deep_view() == texts_of(items.deep_view()),
{
    let ghost all = items.deep_view();
    let mut out: Vec<String> = Vec::new();
    let mut i: usize = 0;
    proof {
        assert(all.subrange(0, 0) =~= Seq::<ConfigItemView>::empty());
        assert(out.deep_view() =~= Seq::<Seq<char>>::empty());
    }
    while i < items.len()
        invariant
            i <= items.len(),
            all == items.deep_view(),
            out.deep_view() == texts_of(all.subrange(0, i as int)),
        decreases items.len() - i,
    {
        let ghost before = out.deep_view();
        proof {
            assert(all.subrange(0, i + 1).drop_last() =~= all.subrange(0, i as int));
            assert(all.subrange(0, i + 1).last() == items[i as int]@);
        }
        match &items[i] {
            ConfigItem::Text(s) => {
                out.push(s.clone());
                proof {
                    assert(out.deep_view() =~= before.push(s@));
                }
            },
            ConfigItem::Other => {},
        }
        i += 1;
    }
    proof {
        assert(all.subrange(0, items.len() as int) =~= all);
    }
    out
}

/// The texts of the list under `key`.
pub fn read_texts(fields: &StringMap<ConfigField>, key: &str) -> (r: Vec<String>)
    ensures
        r.deep_view() == texts_at(fields@, key@),
{
    match fields.get(key) {
        Some(ConfigField::List(items)) => read_items(items),
        _ => {
            let out: Vec<String> = Vec::new();
            proof {
                assert(out.deep_view() =~= Seq::<Seq<char>>::empty());
            }
            out
        },
    }
}

/// The fields of the section under `key`: the section when an object
/// stands there, nothing when the key is absent, and a fault when a
/// value of another kind stands there.
fn read_section<'a>(root: &'a StringMap<ConfigNode>, key: &str) -> (r: Result<
    Option<&'a StringMap<ConfigField>>,
    (),
>)
    ensures
        match r {
            Ok(Some(fields)) => has_section(root@, key@) && fields@ == root@[key@]->Object_0,
            Ok(None) => !root@.dom().contains(key@),
            Err(_) => has_other(root@, key@),
        },
{
    match root.get(key) {
        Some(ConfigNode::Object(fields)) => Ok(Some(fields)),
        Some(ConfigNode::Other) => Err(()),
        None => Ok(None),
    }
}

impl DeviceConfig {
    /// The device section of a configuration.
    pub fn from_value(fields: &StringMap<ConfigField>, defaults: &ConfigDefaults) -> (c: Self)
        ensures
            c.id@ == text_or(fields@, "id"@, defaults.device_id@),
            c.name@ == text_or(fields@, "name"@, defaults.device_name@),
    {
        DeviceConfig {
            id: match read_text(fields, "id") {
                Some(s) => s,
                None => defaults.device_id.clone(),
            },
            name: match read_text(fields, "name") {
                Some(s) => s,
                None => defaults.device_name.clone(),
            },
        }
    }
}

impl PathConfig {
    /// The paths section of a configuration.
    pub fn from_value(fields: &StringMap<ConfigField>, defaults: &ConfigDefaults) -> (c: Self)
        ensures
            c.profile.deep_view() == text_at(fields@, "profile"@),
            c.sync_dir@ == text_or(fields@, "sync_dir"@, defaults.sync_dir@),
    {
        PathConfig {
            profile: read_text(fields, "profile"),
            sync_dir: match read_text(fields, "sync_dir") {
                Some(s) => s,
                None => defaults.sync_dir.clone(),
            },
        }
    }
}

impl SyncConfig {
    /// The peer-to-peer section of a configuration.
    pub fn from_value(fields: &StringMap<ConfigField>) -> (c: Self)
        ensures
            c.listen_port == port_at(fields@, "listen_port"@),
            c.enable_mdns == flag_at(fields@, "enable_mdns"@),
            c.enable_dht == flag_at(fields@, "enable_dht"@),
            c.bootstrap_peers.deep_view() == texts_at(fields@, "bootstrap_peers"@),
    {
        SyncConfig {
            listen_port: read_port(fields, "listen_port"),
            enable_mdns: read_flag(fields, "enable_mdns"),
            enable_dht: read_flag(fields, "enable_dht"),
            bootstrap_peers: read_texts(fields, "bootstrap_peers"),
        }
    }
}

impl ApiConfig {
    /// The section of the control surface of a configuration.
    pub fn from_value(fields: &StringMap<ConfigField>) -> (c: Self)
        ensures
            c.port == api_port_of(Some(fields@)),
    {
        ApiConfig {
            port: match read_port(fields, "port") {
                Some(p) => Some(p),
                None => Some(DEFAULT_API_PORT),
            },
        }
    }
}

impl PrefsConfig {
    /// The preferences section of a configuration.
    pub fn from_value(fields: &StringMap<ConfigField>) -> (c: Self)
        ensures
            c.whitelist.deep_view() == texts_at(fields@, "whitelist"@),
    {
        PrefsConfig { whitelist: read_texts(fields, "whitelist") }
    }
}

impl Config {
    /// Reads a configuration from a tree. Fails with the first fault of
    /// the tree; a tree without fault gives the configuration that it
    /// stands for, with `defaults` where it is silent.
    pub fn from_value(value: &ConfigValue, defaults: &ConfigDefaults) -> (r: Result<
        Self,
        ConfigError,
    >)
        ensures
            match fault_of(value@) {
                Some(fault) => r == Err::<Config, ConfigError>(fault),
                None => r matches Ok(c) && c@ == config_of(
                    value@->Object_0,
                    defaults.device_id@,
                    defaults.device_name@,
                    defaults.sync_dir@,
                ),
            },
    {
        let root = match value {
            ConfigValue::Object(sections) => sections,
            ConfigValue::Other => {
                return Err(ConfigError::MalformedRoot);
            },
        };
        let device = match read_section(root, "device") {
            Ok(Some(fields)) => DeviceConfig::from_value(fields, defaults),
            _ => {
                return Err(ConfigError::MalformedDevice);
            },
        };
        let paths = match read_section(root, "paths") {
            Ok(Some(fields)) => PathConfig::from_value(fields, defaults),
            _ => {
                return Err(ConfigError::MalformedPaths);
            },
        };
        let sync = match read_section(root, "sync") {
            Ok(Some(fields)) => SyncConfig::from_value(fields),
            Ok(None) => SyncConfig::default(),
            Err(_) => {
                return Err(ConfigError::MalformedSync);
            },
        };
        let api = match read_section(root, "api") {
            Ok(Some(fields)) => ApiConfig::from_value(fields),
            Ok(None) => ApiConfig::default(),
            Err(_) => {
                return Err(ConfigError::MalformedApi);
            },
        };
        let prefs = match read_section(root, "prefs") {
            Ok(Some(fields)) => PrefsConfig::from_value(fields),
            Ok(None) => PrefsConfig::default(),
            Err(_) => {
                return Err(ConfigError::MalformedPrefs);
            },
        };
        let config = Config { device, paths, sync, api, prefs };
        proof {
            assert(config.sync.bootstrap_peers.deep_view() =~= config_of(
                value@->Object_0,
                defaults.device_id@,
                defaults.device_name@,
                defaults.sync_dir@,
            ).bootstrap_peers);
            assert(config.prefs.whitelist.deep_view() =~= config_of(
                value@->Object_0,
                defaults.device_id@,
                defaults.device_name@,
                defaults.sync_dir@,
            ).whitelist);
        }
        Ok(config)
    }
}

} // verus!
