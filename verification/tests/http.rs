use shack_amqp_monitor::config::Config;
use shack_amqp_monitor::endpoints::{
    endpoint, last_values_url, universe_config_url, EndpointError,
};
use shack_amqp_monitor::query::{history_alias, HistoryQuery};

#[test]
fn path_names_the_alias() {
    assert_eq!(history_alias("/api/v1/history/alias/kitchen"), Some("kitchen".to_string()));
    assert_eq!(history_alias("api/v1/history/alias/kitchen"), Some("kitchen".to_string()));
    assert_eq!(history_alias("/api/v1/history/alias/k%20n"), Some("k%20n".to_string()));
    assert_eq!(history_alias("/api/v1/history/alias/\u{e4}"), Some("\u{e4}".to_string()));
}

#[test]
fn segments_after_the_alias_do_not_matter() {
    assert_eq!(history_alias("/api/v1/history/alias/kitchen/"), Some("kitchen".to_string()));
    assert_eq!(history_alias("/api/v1/history/alias/kitchen/x/y"), Some("kitchen".to_string()));
}

#[test]
fn other_paths_name_no_alias() {
    for path in [
        "",
        "/",
        "/api/v1/history/alias",
        "/api/v1/history/alias/",
        "/api/v1/history/alias//kitchen",
        "//api/v1/history/alias/kitchen",
        "/api/v2/history/alias/kitchen",
        "/API/v1/history/alias/kitchen",
        "/x/api/v1/history/alias/kitchen",
        "/api/v1/history/aliases/kitchen",
    ] {
        assert_eq!(history_alias(path), None);
    }
}

#[test]
fn details_are_not_asked_for_by_default() {
    let query = HistoryQuery { error_backtraces: None, error_causes: None };
    assert!(!query.include_backtraces());
    assert!(!query.include_causes());
    let query = HistoryQuery { error_backtraces: Some(true), error_causes: Some(false) };
    assert!(query.include_backtraces());
    assert!(!query.include_causes());
    let query = HistoryQuery { error_backtraces: Some(false), error_causes: Some(true) };
    assert!(!query.include_backtraces());
    assert!(query.include_causes());
}

#[test]
fn endpoints_of_the_default_configuration() {
    let base = Config::default().submarine_http_endpoint;
    assert_eq!(
        universe_config_url(&base).unwrap(),
        "http://127.0.0.1:3069/api/v1/universe/config"
    );
    assert_eq!(
        last_values_url(&base).unwrap(),
        "http://127.0.0.1:3069/api/v1/universe/last_values"
    );
}

#[test]
fn endpoint_replaces_the_path_of_the_base() {
    assert_eq!(
        universe_config_url("http://submarine.local/some/path?x=1").unwrap(),
        "http://submarine.local/api/v1/universe/config?x=1"
    );
    assert_eq!(
        last_values_url("HTTP://Submarine.Local:80").unwrap(),
        "http://submarine.local/api/v1/universe/last_values"
    );
}

#[test]
fn base_has_to_be_an_absolute_url() {
    for base in ["", "127.0.0.1", "/submarine", "http://"] {
        assert!(matches!(universe_config_url(base), Err(EndpointError::InvalidBase(_))));
        assert!(matches!(last_values_url(base), Err(EndpointError::InvalidBase(_))));
    }
}

#[test]
fn endpoint_passes_on_what_came_back() {
    assert_eq!(endpoint(Ok("http://x/y".to_string())).unwrap(), "http://x/y");
    assert!(matches!(
        endpoint(Err(url::ParseError::EmptyHost)),
        Err(EndpointError::InvalidBase(url::ParseError::EmptyHost))
    ));
}

#[test]
fn default_configuration() {
    let config = Config::default();
    assert_eq!(config.amqp_server_address, "amqp://127.0.0.1:5672/%2f");
    assert_eq!(config.prometheus_listen_address, "0.0.0.0:6879");
    assert_eq!(config.submarine_http_endpoint, "http://127.0.0.1:3069");
    assert_eq!(config.update_history_count, 1000);
    assert_eq!(config.http_server_listen_address, "0.0.0.0:4350");
}
