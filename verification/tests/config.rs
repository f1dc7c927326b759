use houdini::config::{
    check_client_settings, default_control_path, default_max_backoff, default_min_backoff,
    default_server_name, Backoff, ClientConfig, ConfigError, ServerConfig,
};

fn server(token: &str, path: &str) -> ServerConfig {
    ServerConfig { auth_token: token.into(), server_name: "houdini".into(), control_path: path.into() }
}

fn client(server_url: &str, token: &str, target: &str) -> ClientConfig {
    ClientConfig {
        server_url: server_url.into(),
        auth_token: token.into(),
        local_target: target.into(),
        client_name: None,
        reconnect_min_secs: 1,
        reconnect_max_secs: 30,
    }
}

#[test]
fn defaults() {
    assert_eq!(default_server_name(), "houdini");
    assert_eq!(default_control_path(), "/_houdini/v1/control");
    assert_eq!(default_min_backoff(), 1);
    assert_eq!(default_max_backoff(), 30);
}

#[test]
fn server_config_checks() {
    assert!(server("tok", "/ctl").validate().is_ok());
    let e = server("  \t", "/ctl").validate().unwrap_err();
    assert!(matches!(e, ConfigError::EmptyAuthToken));
    assert_eq!(e.message(), "auth_token must not be empty");
    let e = server("tok", "ctl").validate().unwrap_err();
    assert_eq!(e.message(), "control_path must start with '/' (got 'ctl')");
    let e = server("tok", "").validate().unwrap_err();
    assert!(matches!(e, ConfigError::ControlPathNotAbsolute(ref p) if p.is_empty()));
}

#[test]
fn client_config_checks() {
    assert!(client("wss://example.com/_houdini/v1/control", "t", "http://127.0.0.1:3000").validate().is_ok());
    assert!(client("WS://example.com/", "t", "HTTPS://localhost").validate().is_ok());
    let e = client("https://example.com/", "t", "http://localhost").validate().unwrap_err();
    assert_eq!(e.message(), "server_url scheme must be 'ws' or 'wss' (got 'https')");
    let e = client("ws://example.com/", "t", "ftp://localhost").validate().unwrap_err();
    assert_eq!(e.message(), "local_target scheme must be 'http' or 'https' (got 'ftp')");
    let e = client("ws://example.com/", "", "ftp://localhost").validate().unwrap_err();
    assert!(matches!(e, ConfigError::EmptyAuthToken));
    let e = client("not a url", "", "http://localhost").validate().unwrap_err();
    assert!(matches!(e, ConfigError::UnparsableUrl(ref t) if t == "not a url"));
    let e = client("ws://x/", " ", "also not").validate().unwrap_err();
    assert!(matches!(e, ConfigError::UnparsableUrl(ref t) if t == "also not"));
    let e = client("not a url", "t", "http://localhost").validate().unwrap_err();
    assert_eq!(e.message(), "not a URL: 'not a url'");
    let e = client("ws://x/", "t", "localhost:3000/").validate().unwrap_err();
    assert!(matches!(e, ConfigError::LocalTargetScheme(ref s) if s == "localhost"));
}

#[test]
fn client_settings_from_schemes() {
    assert!(check_client_settings("t", "u", Some("ws".into()), "v", Some("https".into())).is_ok());
    let e = check_client_settings("t", "u", None, "v", Some("http".into())).unwrap_err();
    assert!(matches!(e, ConfigError::UnparsableUrl(ref t) if t == "u"));
    let e = check_client_settings("t", "u", Some("wss".into()), "v", None).unwrap_err();
    assert!(matches!(e, ConfigError::UnparsableUrl(ref t) if t == "v"));
    let e = check_client_settings("", "u", None, "v", None).unwrap_err();
    assert!(matches!(e, ConfigError::UnparsableUrl(ref t) if t == "u"));
}

#[test]
fn backoff_bounds() {
    let mut c = client("ws://x/", "t", "http://y/");
    c.reconnect_min_secs = 0;
    c.reconnect_max_secs = 0;
    assert_eq!(c.min_backoff(), 1);
    assert_eq!(c.max_backoff(), 1);
    c.reconnect_min_secs = 10;
    c.reconnect_max_secs = 3;
    assert_eq!(c.min_backoff(), 10);
    assert_eq!(c.max_backoff(), 10);
}

#[test]
fn backoff_doubles_up_to_cap() {
    let c = client("ws://x/", "t", "http://y/");
    let mut b = Backoff::new(&c);
    let mut seen = vec![b.current()];
    for _ in 0..7 {
        b.advance();
        seen.push(b.current());
    }
    assert_eq!(seen, vec![1, 2, 4, 8, 16, 30, 30, 30]);
}
