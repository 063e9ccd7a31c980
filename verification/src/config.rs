//! Settings: command line, configuration file, and which coordinator URL
//! they resolve to.

use vstd::prelude::*;
use std::path::PathBuf;
use crate::text::{concat2, has_prefix, owned, starts_with};

verus! {

#[verifier::external_type_specification]
#[verifier::external_body]
pub struct ExPathBuf(PathBuf);

/// The command line: a k9s-style terminal UI for labgrid infrastructure
/// monitoring.
#[derive(Debug)]
pub struct Cli {
    /// Coordinator URL (e.g., ws://coordinator:20408/ws or just host:port),
    /// as given by the `--coordinator` flag
    pub coordinator: Option<String>,
    /// The coordinator URL held by the `LG_COORDINATOR` environment variable
    pub coordinator_env: Option<String>,
    /// Path to config file
    pub config: Option<PathBuf>,
    /// UI tick rate in milliseconds
    pub tick_rate: u64,
    /// Log file path (logs to file instead of stderr)
    pub log_file: Option<PathBuf>,
}

/// The configuration file.
#[derive(Debug)]
pub struct Config {
    pub coordinator: CoordinatorConfig,
    pub ui: UiConfig,
}

#[derive(Debug)]
pub struct CoordinatorConfig {
    pub url: Option<String>,
}

#[derive(Debug)]
pub struct UiConfig {
    pub tick_rate_ms: u64,
}

/// The tick rate, in milliseconds, when the file gives none.
pub open spec fn spec_default_tick_rate() -> u64 {
    250
}

pub fn default_tick_rate() -> (r: u64)
    ensures
        r == spec_default_tick_rate(),
{
    250
}

impl Default for UiConfig {
    fn default() -> (r: Self)
        ensures
            r.tick_rate_ms == spec_default_tick_rate(),
    {
        Self { tick_rate_ms: default_tick_rate() }
    }
}

impl Default for CoordinatorConfig {
    fn default() -> (r: Self)
        ensures
            r.url is None,
    {
        Self { url: None }
    }
}

impl Default for Config {
    fn default() -> (r: Self)
        ensures
            r.coordinator.url is None,
            r.ui.tick_rate_ms == spec_default_tick_rate(),
    {
        Self { coordinator: CoordinatorConfig::default(), ui: UiConfig::default() }
    }
}

/// Whether a URL already names its scheme: plain HTTP/2 gRPC (`http://`,
/// `https://`) or WebSocket (`ws://`, `wss://`).
pub open spec fn has_scheme(raw: Seq<char>) -> bool {
    ||| has_prefix(raw, "http://"@)
    ||| has_prefix(raw, "https://"@)
    ||| has_prefix(raw, "ws://"@)
    ||| has_prefix(raw, "wss://"@)
}

/// A URL with a scheme is used as it is; a bare `host:port` becomes
/// `http://host:port`.
pub open spec fn normalized_url(raw: Seq<char>) -> Seq<char> {
    if has_scheme(raw) {
        raw
    } else {
        "http://"@ + raw
    }
}

/// The URL chosen among the sources, normalized: the command-line flag,
/// else the configuration file, else the environment variable.
pub open spec fn resolved_url(flag: Option<String>, file: Option<String>, env: Option<String>) -> Option<Seq<char>> {
    match flag {
        Some(u) => Some(normalized_url(u@)),
        None => match file {
            Some(u) => Some(normalized_url(u@)),
            None => match env {
                Some(u) => Some(normalized_url(u@)),
                None => None,
            },
        },
    }
}

/// Resolve the final coordinator URL from CLI args, config file, and environment.
/// The CLI flag takes priority over the config file, which takes priority
/// over the `LG_COORDINATOR` environment variable.
///
/// Normalizes the coordinator URL:
/// - `http://host:port` or `https://...` → used as-is (plain HTTP/2 gRPC)
/// - `ws://host:port/ws` or `wss://...` → used as-is (WebSocket transport)
/// - `host:port` (no scheme) → converted to `http://host:port`
pub fn resolve_coordinator_url(cli: &Cli, config: &Config) -> (r: Option<String>)
    ensures
        match r {
            Some(u) => resolved_url(cli.coordinator, config.coordinator.url, cli.coordinator_env)
                == Some(u@),
            None => resolved_url(cli.coordinator, config.coordinator.url, cli.coordinator_env) is None,
        },
{
    let raw = match &cli.coordinator {
        Some(u) => u,
        None => match &config.coordinator.url {
            Some(u) => u,
            None => match &cli.coordinator_env {
                Some(u) => u,
                None => {
                    return None;
                },
            },
        },
    };
    Some(normalize_coordinator_url(raw.as_str()))
}

pub fn normalize_coordinator_url(raw: &str) -> (r: String)
    ensures
        r@ == normalized_url(raw@),
{
    if starts_with(raw, "http://") || starts_with(raw, "https://") || starts_with(raw, "ws://")
        || starts_with(raw, "wss://") {
        owned(raw)
    } else {
        concat2("http://", raw)
    }
}

} // verus!
