//! The configuration of a device, as the library reads it.

use vstd::prelude::*;
use vstd::string::StringExecFns;
use crate::events::types::{fresh_event_id, uuid_text};
use crate::text::{decimal_digits, join, u64_to_string};

pub mod value;

pub use value::{ConfigDefaults, ConfigField, ConfigItem, ConfigNode, ConfigValue};

verus! {

/// The port of the local control surface unless configured otherwise.
pub const DEFAULT_API_PORT: u16 = 9778;

/// The whole configuration.
#[derive(Debug)]
pub struct Config {
    pub device: DeviceConfig,
    pub paths: PathConfig,
    pub sync: SyncConfig,
    pub api: ApiConfig,
    pub prefs: PrefsConfig,
}

/// The identity of the device.
#[derive(Debug)]
pub struct DeviceConfig {
    pub id: String,
    pub name: String,
}

/// Where the profile and the sync root are.
#[derive(Debug)]
pub struct PathConfig {
    /// The profile directory; found by discovery when absent.
    pub profile: Option<String>,
    pub sync_dir: String,
}

/// The peer-to-peer settings.
#[derive(Debug)]
pub struct SyncConfig {
    /// Port for peer connections; any free port when absent.
    pub listen_port: Option<u16>,
    /// Local multicast discovery.
    pub enable_mdns: bool,
    /// Wide-area discovery.
    pub enable_dht: bool,
    /// Peers to dial at start, as multiaddresses.
    pub bootstrap_peers: Vec<String>,
}

/// The settings of the local control surface.
#[derive(Debug)]
pub struct ApiConfig {
    pub port: Option<u16>,
}

/// Which preferences are synchronised.
#[derive(Debug)]
pub struct PrefsConfig {
    pub whitelist: Vec<String>,
}

/// Why the configuration gives no answer.
#[derive(Debug, Clone, Copy, PartialEq, Eq, Structural)]
pub enum ConfigError {
    /// No profile directory is configured; it has to be discovered.
    ProfileNotConfigured,
    /// The configuration is no object.
    MalformedRoot,
    /// The section `device` is missing or no object.
    MalformedDevice,
    /// The section `paths` is missing or no object.
    MalformedPaths,
    /// The section `sync` is no object.
    MalformedSync,
    /// The section `api` is no object.
    MalformedApi,
    /// The section `prefs` is no object.
    MalformedPrefs,
}

/// The sentence that tells the user of an error.
pub open spec fn error_text(e: ConfigError) -> Seq<char> {
    match e {
        ConfigError::ProfileNotConfigured => "LibreWolf profile is not configured"@,
        ConfigError::MalformedRoot => "Config: expected object"@,
        ConfigError::MalformedDevice => "DeviceConfig: expected object"@,
        ConfigError::MalformedPaths => "PathConfig: expected object"@,
        ConfigError::MalformedSync => "SyncConfig: expected object"@,
        ConfigError::MalformedApi => "ApiConfig: expected object"@,
        ConfigError::MalformedPrefs => "PrefsConfig: expected object"@,
    }
}

impl ConfigError {
    /// A sentence for the user.
    pub fn message(&self) -> (m: &'static str)
        ensures
            m@ == error_text(*self),
    {
        match self {
            ConfigError::ProfileNotConfigured => "LibreWolf profile is not configured",
            ConfigError::MalformedRoot => "Config: expected object",
            ConfigError::MalformedDevice => "DeviceConfig: expected object",
            ConfigError::MalformedPaths => "PathConfig: expected object",
            ConfigError::MalformedSync => "SyncConfig: expected object",
            ConfigError::MalformedApi => "ApiConfig: expected object",
            ConfigError::MalformedPrefs => "PrefsConfig: expected object",
        }
    }
}

/// A configuration as plain values.
pub struct ConfigView {
    pub device_id: Seq<char>,
    pub device_name: Seq<char>,
    pub profile: Option<Seq<char>>,
    pub sync_dir: Seq<char>,
    pub listen_port: Option<u16>,
    pub enable_mdns: bool,
    pub enable_dht: bool,
    pub bootstrap_peers: Seq<Seq<char>>,
    pub api_port: Option<u16>,
    pub whitelist: Seq<Seq<char>>,
}

impl View for Config {
    type V = ConfigView;

    open spec fn view(&self) -> ConfigView {
        ConfigView {
            device_id: self.device.id@,
            device_name: self.device.name@,
            profile: self.paths.profile.deep_view(),
            sync_dir: self.paths.sync_dir@,
            listen_port: self.sync.listen_port,
            enable_mdns: self.sync.enable_mdns,
            enable_dht: self.sync.enable_dht,
            bootstrap_peers: self.sync.bootstrap_peers.deep_view(),
            api_port: self.api.port,
            whitelist: self.prefs.whitelist.deep_view(),
        }
    }
}

impl Default for SyncConfig {
    fn default() -> (c: Self)
        ensures
            c.listen_port is None,
            !c.enable_mdns,
            !c.enable_dht,
            c.bootstrap_peers@.len() == 0,
    {
        SyncConfig {
            listen_port: None,
            enable_mdns: false,
            enable_dht: false,
            bootstrap_peers: Vec::new(),
        }
    }
}

impl Default for ApiConfig {
    fn default() -> (c: Self)
        ensures
            c.port == Some(DEFAULT_API_PORT),
    {
        ApiConfig { port: Some(DEFAULT_API_PORT) }
    }
}

impl Default for PrefsConfig {
    fn default() -> (c: Self)
        ensures
            c.whitelist@.len() == 0,
    {
        PrefsConfig { whitelist: Vec::new() }
    }
}

impl Default for Config {
    /// A configuration for a new device: a fresh identifier, the name
    /// `unknown`, the sync root `./wolfpack/sync`, and defaults elsewhere.
    fn default() -> (c: Self)
        ensures
            c.device.name@ == "unknown"@,
            c.paths.profile is None,
            c.paths.sync_dir@ == "./wolfpack/sync"@,
            c.sync.listen_port is None,
            !c.sync.enable_mdns,
            !c.sync.enable_dht,
            c.sync.bootstrap_peers@.len() == 0,
            c.api.port == Some(DEFAULT_API_PORT),
            c.prefs.whitelist@.len() == 0,
    {
        Config {
            device: DeviceConfig { id: uuid_text(fresh_event_id()), name: "unknown".to_owned() },
            paths: PathConfig { profile: None, sync_dir: "./wolfpack/sync".to_owned() },
            sync: SyncConfig::default(),
            api: ApiConfig::default(),
            prefs: PrefsConfig::default(),
        }
    }
}

/// The items of a list, each in double quotes, separated by a comma and a
/// space.
pub open spec fn quoted_list(items: Seq<Seq<char>>) -> Seq<char>
    decreases items.len(),
{
    if items.len() == 0 {
        Seq::empty()
    } else if items.len() == 1 {
        "\""@ + items[0] + "\""@
    } else {
        quoted_list(items.drop_last()) + ", "@ + "\""@ + items.last() + "\""@
    }
}

/// The text of a truth value.
pub open spec fn bool_text(b: bool) -> Seq<char> {
    if b {
        "true"@
    } else {
        "false"@
    }
}

/// A line that binds `key` to a quoted text.
pub open spec fn text_line(key: Seq<char>, value: Seq<char>) -> Seq<char> {
    key + " = \""@ + value + "\"\n"@
}

/// A line that binds `key` to a bare value.
pub open spec fn bare_line(key: Seq<char>, value: Seq<char>) -> Seq<char> {
    key + " = "@ + value + "\n"@
}

/// A line that binds `key` to a list of quoted texts; nothing for an empty
/// list.
pub open spec fn list_line(key: Seq<char>, items: Seq<Seq<char>>) -> Seq<char> {
    if items.len() == 0 {
        Seq::empty()
    } else {
        key + " = ["@ + quoted_list(items) + "]\n"@
    }
}

/// A line for an optional port; nothing when absent.
pub open spec fn port_line(key: Seq<char>, port: Option<u16>) -> Seq<char> {
    match port {
        Some(p) => bare_line(key, decimal_digits(p as nat)),
        None => Seq::empty(),
    }
}

/// The configuration as TOML text.
pub open spec fn toml_text(c: &Config) -> Seq<char> {
    "[device]\n"@ + text_line("id"@, c.device.id@) + text_line("name"@, c.device.name@) + "\n"@
        + "[paths]\n"@ + (match c.paths.profile {
        Some(p) => text_line("profile"@, p@),
        None => Seq::empty(),
    }) + text_line("sync_dir"@, c.paths.sync_dir@) + "\n"@ + "[sync]\n"@ + port_line(
        "listen_port"@,
        c.sync.listen_port,
    ) + bare_line("enable_mdns"@, bool_text(c.sync.enable_mdns)) + bare_line(
        "enable_dht"@,
        bool_text(c.sync.enable_dht),
    ) + list_line("bootstrap_peers"@, c.sync.bootstrap_peers.deep_view()) + "\n"@ + "[api]\n"@
        + port_line("port"@, c.api.port) + "\n"@ + "[prefs]\n"@ + list_line(
        "whitelist"@,
        c.prefs.whitelist.deep_view(),
    )
}

/// Writes a line that binds `key` to a quoted text.
fn write_text_line(out: &mut String, key: &str, value: &str)
    ensures
        final(out)@ == old(out)@ + text_line(key@, value@),
{
    let ghost start = out@;
    out.append(key);
    out.append(" = \"");
    out.append(value);
    out.append("\"\n");
    proof {
        assert(out@ =~= start + text_line(key@, value@));
    }
}

/// Writes a line that binds `key` to a bare value.
fn write_bare_line(out: &mut String, key: &str, value: &str)
    ensures
        final(out)@ == old(out)@ + bare_line(key@, value@),
{
    let ghost start = out@;
    out.append(key);
    out.append(" = ");
    out.append(value);
    out.append("\n");
    proof {
        assert(out@ =~= start + bare_line(key@, value@));
    }
}

/// Writes a line for an optional port.
fn write_port_line(out: &mut String, key: &str, port: Option<u16>)
    ensures
        final(out)@ == old(out)@ + port_line(key@, port),
{
    let ghost start = out@;
    match port {
        Some(p) => {
            let digits = u64_to_string(p as u64);
            write_bare_line(out, key, digits.as_str());
        },
        None => {
            proof {
                assert(out@ =~= start + Seq::<char>::empty());
            }
        },
    }
}

/// Writes a line that binds `key` to a list of quoted texts.
fn write_list_line(out: &mut String, key: &str, items: &Vec<String>)
    ensures
        final(out)@ == old(out)@ + list_line(key@, items.deep_view()),
{
    let ghost start = out@;
    let ghost all = items.deep_view();
    if items.len() == 0 {
        proof {
            assert(out@ =~= start + Seq::<char>::empty());
        }
        return ;
    }
    let mut list = String::new();
    let mut i: usize = 0;
    proof {
        assert(all.subrange(0, 0) =~= Seq::<Seq<char>>::empty());
    }
    while i < items.len()
        invariant
            i <= items.len(),
            all == items.deep_view(),
            list@ == quoted_list(all.subrange(0, i as int)),
        decreases items.len() - i,
    {
        let ghost before = list@;
        proof {
            assert(all.subrange(0, i + 1).drop_last() =~= all.subrange(0, i as int));
            assert(all.subrange(0, i + 1).last() == items[i as int]@);
            assert(all.subrange(0, i + 1)[0] == all[0]);
        }
        if i > 0 {
            list.append(", ");
        }
        list.append("\"");
        list.append(items[i].as_str());
        list.append("\"");
        proof {
            if i == 0 {
                assert(before =~= Seq::<char>::empty());
                assert(list@ =~= "\""@ + items[0]@ + "\""@);
            } else {
                assert(list@ =~= before + ", "@ + "\""@ + items[i as int]@ + "\""@);
            }
        }
        i += 1;
    }
    proof {
        assert(all.subrange(0, items.len() as int) =~= all);
    }
    out.append(key);
    out.append(" = [");
    out.append(list.as_str());
    out.append("]\n");
    proof {
        assert(out@ =~= start + list_line(key@, all));
    }
}

impl Config {
    /// The configuration as TOML text.
    pub fn to_toml_string(&self) -> (text: String)
        ensures
            text@ == toml_text(self),
    {
        let mut out = String::new();
        out.append("[device]\n");
        write_text_line(&mut out, "id", self.device.id.as_str());
        write_text_line(&mut out, "name", self.device.name.as_str());
        out.append("\n");
        out.append("[paths]\n");
        let ghost before_profile = out@;
        match &self.paths.profile {
            Some(p) => {
                write_text_line(&mut out, "profile", p.as_str());
            },
            None => {
                proof {
                    assert(out@ =~= before_profile + Seq::<char>::empty());
                }
            },
        }
        write_text_line(&mut out, "sync_dir", self.paths.sync_dir.as_str());
        out.append("\n");
        out.append("[sync]\n");
        write_port_line(&mut out, "listen_port", self.sync.listen_port);
        write_bare_line(
            &mut out,
            "enable_mdns",
            if self.sync.enable_mdns {
                "true"
            } else {
                "false"
            },
        );
        write_bare_line(
            &mut out,
            "enable_dht",
            if self.sync.enable_dht {
                "true"
            } else {
                "false"
            },
        );
        write_list_line(&mut out, "bootstrap_peers", &self.sync.bootstrap_peers);
        out.append("\n");
        out.append("[api]\n");
        write_port_line(&mut out, "port", self.api.port);
        out.append("\n");
        out.append("[prefs]\n");
        write_list_line(&mut out, "whitelist", &self.prefs.whitelist);
        proof {
            assert(out@ =~= toml_text(self));
        }
        out
    }

    /// The path of the state index below the sync root.
    pub fn state_db_path(&self) -> (path: String)
        ensures
            path@ == self.paths.sync_dir@ + "/state.db"@,
    {
        join(self.paths.sync_dir.as_str(), "/state.db")
    }

    /// The configured profile directory. Fails when none is configured and
    /// the profile has to be discovered.
    pub fn profile_dir(&self) -> (r: Result<String, ConfigError>)
        ensures
            match self.paths.profile {
                Some(p) => r matches Ok(path) && path@ == p@,
                None => r matches Err(e) && e == ConfigError::ProfileNotConfigured,
            },
    {
        match &self.paths.profile {
            Some(p) => Ok(p.clone()),
            None => Err(ConfigError::ProfileNotConfigured),
        }
    }
}

} // verus!
