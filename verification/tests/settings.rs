use kupo_proxy::config::{Config, Setting, SettingError, Settings, DEFAULT_HEALTH_POLL_INTERVAL};
use kupo_proxy::text::{parse_number, same_text, to_decimal};

fn full() -> Settings {
    Settings {
        proxy_addr: Some("0.0.0.0:8443".to_string()),
        proxy_namespace: Some("ns".to_string()),
        proxy_tiers_path: Some("/tiers.toml".to_string()),
        prometheus_addr: Some("0.0.0.0:9090".to_string()),
        ssl_crt_path: Some("/crt".to_string()),
        ssl_key_path: Some("/key".to_string()),
        kupo_port: Some("1442".to_string()),
        kupo_dns: Some("dns".to_string()),
        default_kupo_version: None,
        health_endpoint: None,
        health_poll_interval: None,
        network: None,
    }
}

#[test]
fn settings_are_taken_over_with_defaults() {
    let config = Config::new(full()).unwrap();
    assert_eq!(config.proxy_addr, "0.0.0.0:8443");
    assert_eq!(config.proxy_namespace, "ns");
    assert_eq!(config.proxy_tiers_path, "/tiers.toml");
    assert_eq!(config.prometheus_addr, "0.0.0.0:9090");
    assert_eq!(config.ssl_crt_path, "/crt");
    assert_eq!(config.ssl_key_path, "/key");
    assert_eq!(config.kupo_port, 1442);
    assert_eq!(config.kupo_dns, "dns");
    assert_eq!(config.default_kupo_version, "2");
    assert_eq!(config.health_endpoint, "/dmtr_health");
    assert_eq!(config.health_poll_interval, 10);
    assert_eq!(DEFAULT_HEALTH_POLL_INTERVAL, 10);
    assert_eq!(config.network, "mainnet");
    assert_eq!(config.instance(true), "kupo-mainnet-pruned.dns:1442");
    assert_eq!(config.instance(false), "kupo-mainnet.dns:1442");
}

#[test]
fn optional_settings_override_the_defaults() {
    let config = Config::new(Settings {
        default_kupo_version: Some("3".to_string()),
        health_endpoint: Some("/ok".to_string()),
        health_poll_interval: Some("45".to_string()),
        network: Some("preprod".to_string()),
        ..full()
    })
    .unwrap();
    assert_eq!(config.network, "preprod");
    assert_eq!(config.instance(true), "kupo-preprod-pruned.dns:1442");
    assert_eq!(config.default_kupo_version, "3");
    assert_eq!(config.health_endpoint, "/ok");
    assert_eq!(config.health_poll_interval, 45);
}

#[test]
fn first_missing_setting_is_named() {
    let missing = |s: Settings| Config::new(s).err();
    assert_eq!(
        missing(Settings { proxy_addr: None, kupo_dns: None, ..full() }),
        Some(SettingError::Missing(Setting::ProxyAddr))
    );
    assert_eq!(
        missing(Settings { proxy_namespace: None, ..full() }),
        Some(SettingError::Missing(Setting::ProxyNamespace))
    );
    assert_eq!(
        missing(Settings { proxy_tiers_path: None, ..full() }),
        Some(SettingError::Missing(Setting::ProxyTiersPath))
    );
    assert_eq!(
        missing(Settings { prometheus_addr: None, ..full() }),
        Some(SettingError::Missing(Setting::PrometheusAddr))
    );
    assert_eq!(
        missing(Settings { ssl_crt_path: None, ..full() }),
        Some(SettingError::Missing(Setting::SslCrtPath))
    );
    assert_eq!(
        missing(Settings { ssl_key_path: None, ..full() }),
        Some(SettingError::Missing(Setting::SslKeyPath))
    );
    assert_eq!(
        missing(Settings { kupo_port: None, kupo_dns: None, ..full() }),
        Some(SettingError::Missing(Setting::KupoPort))
    );
    assert_eq!(
        missing(Settings { kupo_dns: None, ..full() }),
        Some(SettingError::Missing(Setting::KupoDns))
    );
}

#[test]
fn numbers_that_are_none_are_named() {
    let fault = |s: Settings| Config::new(s).err();
    for port in ["", "http", "65536", "-1", " 80", "80 ", "1_000", "0x50"] {
        assert_eq!(
            fault(Settings { kupo_port: Some(port.to_string()), ..full() }),
            Some(SettingError::NotANumber(Setting::KupoPort)),
            "{}",
            port
        );
    }
    assert_eq!(
        fault(Settings { health_poll_interval: Some("soon".to_string()), ..full() }),
        Some(SettingError::NotANumber(Setting::HealthPollInterval))
    );
    assert_eq!(Config::new(Settings { kupo_port: Some("65535".to_string()), ..full() }).unwrap().kupo_port, 65535);
    assert_eq!(Config::new(Settings { kupo_port: Some("+080".to_string()), ..full() }).unwrap().kupo_port, 80);
}

#[test]
fn settings_have_their_variable_names() {
    assert_eq!(Setting::ProxyAddr.name(), "PROXY_ADDR");
    assert_eq!(Setting::ProxyNamespace.name(), "PROXY_NAMESPACE");
    assert_eq!(Setting::ProxyTiersPath.name(), "PROXY_TIERS_PATH");
    assert_eq!(Setting::PrometheusAddr.name(), "PROMETHEUS_ADDR");
    assert_eq!(Setting::SslCrtPath.name(), "SSL_CRT_PATH");
    assert_eq!(Setting::SslKeyPath.name(), "SSL_KEY_PATH");
    assert_eq!(Setting::KupoPort.name(), "KUPO_PORT");
    assert_eq!(Setting::KupoDns.name(), "KUPO_DNS");
    assert_eq!(Setting::HealthPollInterval.name(), "HEALTH_POLL_INTERVAL");
}

#[test]
fn numbers_are_parsed_as_std_parses_them() {
    for text in ["0", "7", "+7", "007", "1442", "65535", "65536", "", "+", "-7", "７", "7a", "a7", "++7", "18446744073709551615", "18446744073709551616", "99999999999999999999999"] {
        assert_eq!(parse_number(text, u64::MAX), text.parse::<u64>().ok(), "{:?}", text);
        assert_eq!(
            parse_number(text, 65535),
            text.parse::<u16>().ok().map(|n| n as u64),
            "{:?}",
            text
        );
    }
    assert_eq!(parse_number("10", 9), None);
    assert_eq!(parse_number("9", 9), Some(9));
    assert_eq!(parse_number("0", 0), Some(0));
}

#[test]
fn numbers_are_written_in_decimal() {
    for n in [0u64, 1, 9, 10, 11, 99, 100, 429, 1442, 65535, u64::MAX] {
        assert_eq!(to_decimal(n), n.to_string());
    }
}

#[test]
fn texts_are_compared_by_their_characters() {
    assert!(same_text("", ""));
    assert!(same_text("/health", "/health"));
    assert!(!same_text("/health", "/healthz"));
    assert!(!same_text("/Health", "/health"));
    assert!(same_text("caf\u{e9}", "caf\u{e9}"));
    assert!(!same_text("cafe", "caf\u{e9}"));
}
