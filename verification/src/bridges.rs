//! Chat platform bridges (`gqy napcat`, `gqy tg`): where their configuration,
//! scripts and logs live, and how their settings are changed. LaunchAgents and
//! the files themselves are handled by the caller.
use vstd::prelude::*;
use crate::paths::{join_path, join_spec, GqyPaths};
use crate::text::{chars_of, extend_str, str_is, string_of};

verus! {

/// The bridges' configuration file, in the configuration directory.
pub const BRIDGES_FILE: &'static str = "bridges.json";

/// Settings of every bridge.
#[derive(Debug, Clone)]
pub struct BridgesConfig {
    pub napcat: Option<NapcatConfig>,
    pub tg: Option<TgConfig>,
}

/// Settings of the NapCat (QQ) bridge.
#[derive(Debug, Clone)]
pub struct NapcatConfig {
    pub ws_url: String,
    pub self_id: String,
    pub bin: String,
    pub install_dir: String,
    pub enabled: bool,
}

/// Settings of the Telegram bridge.
#[derive(Debug, Clone)]
pub struct TgConfig {
    pub token: String,
    pub owner_id: String,
    pub bin: String,
    pub enabled: bool,
}

impl BridgesConfig {
    pub fn new() -> (r: BridgesConfig)
        ensures
            r.napcat is None,
            r.tg is None,
    {
        BridgesConfig { napcat: None, tg: None }
    }
}

/// The NapCat WebSocket address used when none is set.
pub fn default_ws_url() -> (r: String)
    ensures
        r@ == "ws://127.0.0.1:3001"@,
{
    "ws://127.0.0.1:3001".to_string()
}

/// Bridges are enabled unless switched off.
pub fn default_enabled() -> (r: bool)
    ensures
        r,
{
    true
}

pub fn bridges_file(paths: &GqyPaths) -> (r: String)
    ensures
        r@ == join_spec(paths.config_dir@, "bridges.json"@),
{
    join_path(paths.config_dir.as_str(), BRIDGES_FILE)
}

/// Where the bridge scripts are: the installed `share/bridges` when it holds the
/// NapCat bridge, else the source tree's `communication` when that does, else
/// `share/bridges`.
pub fn bridges_dir(paths: &GqyPaths, share_has_bridge: bool, source_has_bridge: bool) -> (r: String)
    ensures
        r@ == if !share_has_bridge && source_has_bridge {
            join_spec(paths.share_dir@, "communication"@)
        } else {
            join_spec(paths.share_dir@, "bridges"@)
        },
{
    if !share_has_bridge && source_has_bridge {
        join_path(paths.share_dir.as_str(), "communication")
    } else {
        join_path(paths.share_dir.as_str(), "bridges")
    }
}

/// The script of a platform's bridge: `<bridges>/<platform>/bridge.cjs`.
pub fn bridge_script(bridges_dir: &str, platform: &str) -> (r: String)
    ensures
        r@ == join_spec(join_spec(bridges_dir@, platform@), "bridge.cjs"@),
{
    let d = join_path(bridges_dir, platform);
    join_path(d.as_str(), "bridge.cjs")
}

/// A platform's bridge log: `<logs>/<platform>-bridge.log`.
pub fn bridge_log_path(paths: &GqyPaths, platform: &str) -> (r: String)
    ensures
        r@ == join_spec(join_spec(paths.cache_dir@, "logs"@), platform@ + "-bridge.log"@),
{
    let logs = paths.logs_dir();
    let mut name = chars_of(platform);
    extend_str(&mut name, "-bridge.log");
    join_path(logs.as_str(), string_of(name.as_slice()).as_str())
}

/// `enabled` is set by `true`, `1` or `yes`; anything else switches it off.
pub open spec fn enabled_text(value: Seq<char>) -> bool {
    value == "true"@ || value == "1"@ || value == "yes"@
}

fn enabled_value(value: &str) -> (r: bool)
    ensures
        r == enabled_text(value@),
{
    let v = chars_of(value);
    str_is(v.as_slice(), "true") || str_is(v.as_slice(), "1") || str_is(v.as_slice(), "yes")
}

/// A setting name the bridge does not have.
#[derive(Debug, Clone, Copy, PartialEq, Eq, Structural)]
pub struct UnknownSetting;

// ---------------------------------------------------------------- NapCat

/// `gqy napcat` and its subcommand (status when none is given).
#[derive(Debug, Clone)]
pub struct NapcatArgs {
    pub command: Option<NapcatCommand>,
}

#[derive(Debug, Clone)]
pub enum NapcatCommand {
    Status,
    /// Install the bridge LaunchAgent; with a NapCat directory, keep NapCat
    /// itself running too.
    Install { napcat: Option<String> },
    Uninstall,
    /// Set `ws_url`, `self_id`, `bin` or `enabled`.
    Config { key: String, value: String },
}

/// The NapCat settings in effect: the saved ones, or defaults (the default
/// address, no QQ number, the current Node binary, enabled); an empty binary
/// follows the current Node.
pub fn napcat_config_for(saved: Option<NapcatConfig>, node_bin: String) -> (r: NapcatConfig)
    ensures
        match saved {
            Some(c) => r.ws_url == c.ws_url && r.self_id == c.self_id && r.install_dir
                == c.install_dir && r.enabled == c.enabled && r.bin@ == (if c.bin@.len() == 0 {
                node_bin@
            } else {
                c.bin@
            }),
            None => r.ws_url@ == "ws://127.0.0.1:3001"@ && r.self_id@.len() == 0 && r.bin
                == node_bin && r.install_dir@.len() == 0 && r.enabled,
        },
{
    match saved {
        Some(c) => {
            let mut c = c;
            if c.bin.as_str().is_empty() {
                c.bin = node_bin;
            }
            c
        },
        None => NapcatConfig {
            ws_url: default_ws_url(),
            self_id: String::new(),
            bin: node_bin,
            install_dir: String::new(),
            enabled: true,
        },
    }
}

/// `gqy napcat config <key> <value>` on the settings in effect.
pub fn set_napcat_option(config: NapcatConfig, key: &str, value: &str) -> (r: Result<
    NapcatConfig,
    UnknownSetting,
>)
    ensures
        if key@ == "ws_url"@ {
            r matches Ok(c) && c == (NapcatConfig { ws_url: c.ws_url, ..config }) && c.ws_url@
                == value@
        } else if key@ == "self_id"@ {
            r matches Ok(c) && c == (NapcatConfig { self_id: c.self_id, ..config }) && c.self_id@
                == value@
        } else if key@ == "bin"@ {
            r matches Ok(c) && c == (NapcatConfig { bin: c.bin, ..config }) && c.bin@ == value@
        } else if key@ == "enabled"@ {
            r matches Ok(c) && c == (NapcatConfig { enabled: enabled_text(value@), ..config })
        } else {
            r == Err::<NapcatConfig, UnknownSetting>(UnknownSetting)
        },
{
    let k = chars_of(key);
    let mut c = config;
    if str_is(k.as_slice(), "ws_url") {
        c.ws_url = value.to_string();
    } else if str_is(k.as_slice(), "self_id") {
        c.self_id = value.to_string();
    } else if str_is(k.as_slice(), "bin") {
        c.bin = value.to_string();
    } else if str_is(k.as_slice(), "enabled") {
        c.enabled = enabled_value(value);
    } else {
        return Err(UnknownSetting);
    }
    Ok(c)
}

// ---------------------------------------------------------------- Telegram

/// `gqy tg` and its subcommand (status when none is given).
#[derive(Debug, Clone)]
pub struct TgArgs {
    pub command: Option<TgCommand>,
}

#[derive(Debug, Clone)]
pub enum TgCommand {
    Status,
    Install,
    Uninstall,
    /// Set the bot token.
    Token { token: String },
    /// Set `owner_id`, `bin` or `enabled`.
    Config { key: String, value: String },
}

/// The Telegram settings in effect: the saved ones, or defaults (no token, no
/// owner, the current Node binary, enabled); an empty binary follows the
/// current Node.
pub fn tg_config_for(saved: Option<TgConfig>, node_bin: String) -> (r: TgConfig)
    ensures
        match saved {
            Some(c) => r.token == c.token && r.owner_id == c.owner_id && r.enabled == c.enabled
                && r.bin@ == (if c.bin@.len() == 0 {
                node_bin@
            } else {
                c.bin@
            }),
            None => r.token@.len() == 0 && r.owner_id@.len() == 0 && r.bin == node_bin && r.enabled,
        },
{
    match saved {
        Some(c) => {
            let mut c = c;
            if c.bin.as_str().is_empty() {
                c.bin = node_bin;
            }
            c
        },
        None => TgConfig { token: String::new(), owner_id: String::new(), bin: node_bin, enabled: true },
    }
}

/// `gqy tg token <token>` and `gqy tg config <key> <value>` on the settings in
/// effect.
pub fn set_tg_option(config: TgConfig, key: &str, value: &str) -> (r: Result<TgConfig, UnknownSetting>)
    ensures
        if key@ == "token"@ {
            r matches Ok(c) && c == (TgConfig { token: c.token, ..config }) && c.token@ == value@
        } else if key@ == "owner_id"@ {
            r matches Ok(c) && c == (TgConfig { owner_id: c.owner_id, ..config }) && c.owner_id@
                == value@
        } else if key@ == "bin"@ {
            r matches Ok(c) && c == (TgConfig { bin: c.bin, ..config }) && c.bin@ == value@
        } else if key@ == "enabled"@ {
            r matches Ok(c) && c == (TgConfig { enabled: enabled_text(value@), ..config })
        } else {
            r == Err::<TgConfig, UnknownSetting>(UnknownSetting)
        },
{
    let k = chars_of(key);
    let mut c = config;
    if str_is(k.as_slice(), "token") {
        c.token = value.to_string();
    } else if str_is(k.as_slice(), "owner_id") {
        c.owner_id = value.to_string();
    } else if str_is(k.as_slice(), "bin") {
        c.bin = value.to_string();
    } else if str_is(k.as_slice(), "enabled") {
        c.enabled = enabled_value(value);
    } else {
        return Err(UnknownSetting);
    }
    Ok(c)
}

} // verus!
