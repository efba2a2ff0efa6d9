use confluence_cli::config::{config_read_error, finish_load, resolve_config_path, Config};

fn config(site_url: &str, default_space: Option<&str>) -> Config {
    Config {
        site_url: site_url.to_string(),
        email: "user@example.com".to_string(),
        api_token: "token-value".to_string(),
        default_space: default_space.map(|s| s.to_string()),
    }
}

#[test]
fn config_rejects_non_loopback_http_site_url() {
    let config = config("http://example.atlassian.net/wiki", Some("ENG"));

    let error = config.validate().unwrap_err();

    assert_eq!(error.code.as_str(), "config_invalid");
    assert!(error.message.contains("https://"));
}

#[test]
fn config_allows_loopback_http_for_mock_servers() {
    let config = config("http://127.0.0.1:12345/wiki/", Some("ENG"));

    let validated = config.validate().unwrap();

    assert_eq!(validated.site_url, "http://127.0.0.1:12345/wiki");
}

#[test]
fn validation_trims_trailing_slashes_and_the_default_space() {
    let validated = config("https://example.atlassian.net/wiki//", Some("  ENG \n"))
        .validate()
        .unwrap();
    assert_eq!(validated.site_url, "https://example.atlassian.net/wiki");
    assert_eq!(validated.email, "user@example.com");
    assert_eq!(validated.api_token, "token-value");
    assert_eq!(validated.default_space.as_deref(), Some("ENG"));
}

#[test]
fn blank_default_space_means_none() {
    let validated = config("https://example.atlassian.net/wiki", Some("   "))
        .validate()
        .unwrap();
    assert_eq!(validated.default_space, None);
}

#[test]
fn validating_twice_changes_nothing() {
    let once = config("https://example.atlassian.net/wiki/", Some(" DOC "))
        .validate()
        .unwrap();
    let twice = Config {
        site_url: once.site_url.clone(),
        email: once.email.clone(),
        api_token: once.api_token.clone(),
        default_space: once.default_space.clone(),
    }
    .validate()
    .unwrap();
    assert_eq!(once.site_url, twice.site_url);
    assert_eq!(once.email, twice.email);
    assert_eq!(once.api_token, twice.api_token);
    assert_eq!(once.default_space, twice.default_space);
}

#[test]
fn missing_credentials_are_config_invalid() {
    let mut c = config("https://example.atlassian.net/wiki", None);
    c.api_token = String::new();
    let error = c.validate().unwrap_err();
    assert_eq!(error.code.as_str(), "config_invalid");
    assert_eq!(
        error.message,
        "Config must include site_url, email, and api_token."
    );

    let only_slashes = config("///", None).validate().unwrap_err();
    assert_eq!(only_slashes.code.as_str(), "config_invalid");
}

#[test]
fn unparsable_site_url_is_config_invalid() {
    let error = config("not a url", None).validate().unwrap_err();
    assert_eq!(error.code.as_str(), "config_invalid");
    assert!(error
        .message
        .starts_with("Config site_url must be a valid URL: "));
}

#[test]
fn localhost_http_is_allowed_but_ipv6_loopback_is_not() {
    assert!(config("http://localhost:8080", None).validate().is_ok());
    assert!(config("http://127.1.2.3/", None).validate().is_ok());
    assert!(config("http://[::1]:8080", None).validate().is_err());
    assert!(config("ftp://127.0.0.1/", None).validate().is_err());
}

#[test]
fn env_var_overrides_default_config_path() {
    let path = resolve_config_path(Some("/tmp/custom.toml".to_string()), Some("/home/u".to_string()))
        .unwrap();
    assert_eq!(path, "/tmp/custom.toml");
}

#[test]
fn config_round_trip_trims_site_url_slash() {
    let saved = config("https://example.atlassian.net/wiki/", Some("ENG")).validate().unwrap();
    let loaded = finish_load(Ok(saved)).unwrap();
    assert_eq!(loaded.site_url, "https://example.atlassian.net/wiki");
    assert_eq!(loaded.email, "user@example.com");
    assert_eq!(loaded.api_token, "token-value");
    assert_eq!(loaded.default_space.as_deref(), Some("ENG"));
}

#[test]
fn config_allows_missing_default_space() {
    let loaded = finish_load(Ok(config("https://example.atlassian.net/wiki", None))).unwrap();
    assert_eq!(loaded.site_url, "https://example.atlassian.net/wiki");
    assert_eq!(loaded.email, "user@example.com");
    assert_eq!(loaded.api_token, "token-value");
    assert_eq!(loaded.default_space, None);
}

#[test]
fn invalid_config_rejects_missing_fields() {
    let missing_email = Config {
        site_url: "https://example.atlassian.net/wiki".to_string(),
        email: String::new(),
        api_token: String::new(),
        default_space: None,
    };
    let error = finish_load(Ok(missing_email)).unwrap_err();
    assert_eq!(error.code.as_str(), "config_invalid");
    let error = finish_load(Err("missing field `email`".to_string())).unwrap_err();
    assert_eq!(error.code.as_str(), "config_invalid");
}

#[test]
fn config_path_defaults_under_home() {
    let path = resolve_config_path(None, Some("/home/u".to_string())).unwrap();
    assert_eq!(path, "/home/u/.config/confluence-cli/config.toml");
    let path = resolve_config_path(None, Some("/home/u/".to_string())).unwrap();
    assert_eq!(path, "/home/u/.config/confluence-cli/config.toml");
}

#[test]
fn config_path_needs_home_or_override() {
    let error = resolve_config_path(None, None).unwrap_err();
    assert_eq!(error.code.as_str(), "config_invalid");
    assert_eq!(
        error.message,
        "HOME is not set and CONFLUENCE_CLI_CONFIG was not provided."
    );
}

#[test]
fn unreadable_config_codes() {
    assert_eq!(
        config_read_error("/x/config.toml", true).code.as_str(),
        "config_not_found"
    );
    let other = config_read_error("/x/config.toml", false);
    assert_eq!(other.code.as_str(), "config_invalid");
    assert_eq!(other.message, "Failed to read config at /x/config.toml.");
}

#[test]
fn toml_parse_failure_is_config_invalid() {
    let error = finish_load(Err("missing field `email`".to_string())).unwrap_err();
    assert_eq!(error.code.as_str(), "config_invalid");
    assert_eq!(
        error.message,
        "Failed to parse config TOML: missing field `email`"
    );
}

#[test]
fn loaded_config_without_default_space_warns() {
    let loaded = finish_load(Ok(config("https://example.atlassian.net/wiki", None))).unwrap();
    assert_eq!(loaded.site_url, "https://example.atlassian.net/wiki");
    assert_eq!(loaded.email, "user@example.com");
    assert_eq!(loaded.api_token, "token-value");
    assert!(loaded.missing_default_space_warning().unwrap().contains("default_space"));
    assert!(loaded.missing_default_space_warning().unwrap().contains("Warning"));
}

#[test]
fn configured_default_space_gives_no_warning() {
    let c = config("https://example.atlassian.net/wiki", Some("ENG"));
    assert!(c.missing_default_space_warning().is_none());
}
