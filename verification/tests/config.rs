use anypost::config::{normalize_base_url, resolve_api_key, DEFAULT_BASE_URL};

#[test]
fn the_base_url_loses_trailing_slashes() {
    assert_eq!(normalize_base_url(Some("https://api.test/v1/")), "https://api.test/v1");
    assert_eq!(normalize_base_url(Some("https://api.test/v1//")), "https://api.test/v1");
    assert_eq!(normalize_base_url(Some("https://api.test/v1")), "https://api.test/v1");
    assert_eq!(normalize_base_url(None), DEFAULT_BASE_URL);
    assert_eq!(normalize_base_url(Some("///")), "");
}

#[test]
fn an_explicit_key_wins_over_the_environment() {
    assert_eq!(resolve_api_key(Some("ap_1"), Some("ap_env")).unwrap(), "ap_1");
    assert_eq!(resolve_api_key(Some(""), Some("ap_env")).unwrap(), "ap_env");
    assert_eq!(resolve_api_key(None, Some("ap_env")).unwrap(), "ap_env");
}

#[test]
fn a_missing_key_is_a_config_error() {
    let err = resolve_api_key(Some(""), None).unwrap_err();
    assert!(err.starts_with("An Anypost API key is required."));
    assert!(resolve_api_key(None, Some("")).is_err());
}
