use myr::config::{env_or_default, MyrConfig};

fn unset() -> MyrConfig {
    MyrConfig::from_values(None, None, None, None, None, None, None)
}

#[test]
fn config_uses_expected_defaults() {
    let cfg = unset();

    assert_eq!(cfg.saga_host, "192.168.4.111");
    assert_eq!(cfg.saga_voice_ip, "10.0.0.60");
    assert_eq!(cfg.saga_voice_port, "8765");
}

#[test]
fn config_api_url_follows_local_port() {
    let cfg = unset();
    assert_eq!(cfg.myr_local_port, "18765");
    assert_eq!(cfg.saga_api_url, "http://localhost:18765");
    assert_eq!(cfg.voice_api_key, "");

    let cfg = MyrConfig::from_values(Some("9000".to_string()), None, None, None, None, None, None);
    assert_eq!(cfg.saga_api_url, "http://localhost:9000");

    let cfg = MyrConfig::from_values(
        Some("9000".to_string()),
        Some("http://saga:1".to_string()),
        None,
        None,
        None,
        None,
        None,
    );
    assert_eq!(cfg.saga_api_url, "http://saga:1");
}

#[test]
fn config_api_key_falls_back_to_saga_key() {
    let cfg = MyrConfig::from_values(None, None, None, Some("old".to_string()), None, None, None);
    assert_eq!(cfg.voice_api_key, "old");
    let cfg = MyrConfig::from_values(
        None,
        None,
        Some("new".to_string()),
        Some("old".to_string()),
        None,
        None,
        None,
    );
    assert_eq!(cfg.voice_api_key, "new");
}

#[test]
fn env_value_wins_over_default() {
    assert_eq!(env_or_default(Some("x".to_string()), "d"), "x");
    assert_eq!(env_or_default(None, "d"), "d");
}
