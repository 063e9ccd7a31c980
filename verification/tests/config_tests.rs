use labgrid_tui::config::{
    default_tick_rate, normalize_coordinator_url, resolve_coordinator_url, Cli, Config,
    CoordinatorConfig, UiConfig,
};

fn cli(url: Option<&str>) -> Cli {
    cli_env(url, None)
}

fn cli_env(url: Option<&str>, env: Option<&str>) -> Cli {
    Cli {
        coordinator: url.map(|s| s.to_string()),
        coordinator_env: env.map(|s| s.to_string()),
        config: None,
        tick_rate: 250,
        log_file: None,
    }
}

fn config(url: Option<&str>) -> Config {
    Config { coordinator: CoordinatorConfig { url: url.map(|s| s.to_string()) }, ui: UiConfig::default() }
}

#[test]
fn bare_host_port_gets_http_scheme() {
    assert_eq!(normalize_coordinator_url("10.0.0.147:20408"), "http://10.0.0.147:20408");
}

#[test]
fn urls_with_a_scheme_are_kept() {
    for url in ["http://c:20408", "https://c", "ws://c:20408/ws", "wss://c/ws"] {
        assert_eq!(normalize_coordinator_url(url), url);
    }
    assert_eq!(normalize_coordinator_url("grpc://c"), "http://grpc://c");
    assert_eq!(normalize_coordinator_url(""), "http://");
}

#[test]
fn default_tick_rate_is_250() {
    assert_eq!(default_tick_rate(), 250);
    assert_eq!(UiConfig::default().tick_rate_ms, 250);
    let c = Config::default();
    assert!(c.coordinator.url.is_none());
    assert_eq!(c.ui.tick_rate_ms, 250);
    assert!(CoordinatorConfig::default().url.is_none());
}

#[test]
fn command_line_wins_over_config_file() {
    assert_eq!(
        resolve_coordinator_url(&cli(Some("a:1")), &config(Some("ws://b/ws"))),
        Some("http://a:1".to_string())
    );
    assert_eq!(
        resolve_coordinator_url(&cli(None), &config(Some("ws://b/ws"))),
        Some("ws://b/ws".to_string())
    );
    assert_eq!(
        resolve_coordinator_url(&cli(None), &config(Some("b:2"))),
        Some("http://b:2".to_string())
    );
    assert_eq!(resolve_coordinator_url(&cli(None), &config(None)), None);
}

#[test]
fn environment_comes_last() {
    assert_eq!(
        resolve_coordinator_url(&cli_env(None, Some("e:3")), &config(Some("f:2"))),
        Some("http://f:2".to_string())
    );
    assert_eq!(
        resolve_coordinator_url(&cli_env(None, Some("10.0.0.147:20408")), &config(None)),
        Some("http://10.0.0.147:20408".to_string())
    );
    assert_eq!(
        resolve_coordinator_url(&cli_env(Some("ws://c/ws"), Some("e:3")), &config(Some("f:2"))),
        Some("ws://c/ws".to_string())
    );
}
