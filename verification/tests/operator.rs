use kupo_proxy::api_key::generate_api_key;
use kupo_proxy::operator::{
    build_host, build_hostname, get_acl_name, get_auth_name, get_config, get_host_key_name,
    get_rate_limit_name, namespace_to_slug, route_plugins, route_status, Config, KupoPortSpec,
    KupoPortStatus,
};

fn defaults() -> Config {
    Config::from_env(None, None, None, None, None, None).unwrap()
}

#[test]
fn test_build_hostname() {
    let config = Config::from_env(None, None, None, None, Some("30".to_string()), None).unwrap();
    let network = "preprod";
    let key = "fake_key";

    let (hostname, hostname_key) = build_hostname(&config, network, key, &None);
    assert_eq!(hostname, String::from("preprod-v2.kupo-m1.demeter.run"));
    assert_eq!(hostname_key, String::from("fake_key.preprod-v2.kupo-m1.demeter.run"));

    let (hostname, hostname_key) = build_hostname(&config, network, key, &Some("3".to_owned()));
    assert_eq!(hostname, String::from("preprod-v3.kupo-m1.demeter.run"));
    assert_eq!(hostname_key, String::from("fake_key.preprod-v3.kupo-m1.demeter.run"));
}

#[test]
fn operator_settings_have_defaults() {
    let config = defaults();
    assert_eq!(config.dns_zone, "demeter.run");
    assert_eq!(config.namespace, "ftr-kupo-v1");
    assert_eq!(config.ingress_class, "kupo-m1");
    assert_eq!(config.api_key_salt, "kupo-salt");
    assert_eq!(config.http_port, "1442");
    assert_eq!(config.metrics_delay, 30);
    assert_eq!(config.default_kupo_version, "2");
}

#[test]
fn operator_settings_follow_the_environment() {
    let s = |t: &str| Some(t.to_string());
    let config = Config::from_env(s("a.b"), s("ns"), s("class"), s("salt"), s("5"), s("9")).unwrap();
    assert_eq!(config.dns_zone, "a.b");
    assert_eq!(config.namespace, "ns");
    assert_eq!(config.ingress_class, "class");
    assert_eq!(config.api_key_salt, "salt");
    assert_eq!(config.http_port, "1442");
    assert_eq!(config.metrics_delay, 5);
    assert_eq!(config.default_kupo_version, "9");
    assert!(Config::from_env(None, None, None, None, s("soon"), None).is_none());
    assert!(Config::from_env(None, None, None, None, s(""), None).is_none());
}

#[test]
fn object_names_carry_their_prefix() {
    assert_eq!(get_auth_name("port-1"), "kupo-auth-port-1");
    assert_eq!(get_host_key_name("port-1"), "kupo-host-key-port-1");
    assert_eq!(get_rate_limit_name("3"), "rate-limiting-kupo-tier-3");
    assert_eq!(get_acl_name("port-1"), "kupo-acl-port-1");
    assert_eq!(get_auth_name(""), "kupo-auth-");
    assert_eq!(
        route_plugins("port-1", "3"),
        "kupo-auth-port-1,kupo-acl-port-1,rate-limiting-kupo-tier-3"
    );
}

#[test]
fn slug_is_what_follows_the_first_hyphen() {
    assert_eq!(namespace_to_slug("prj-happy-otter"), Some("happy-otter".to_string()));
    assert_eq!(namespace_to_slug("prj-"), Some("".to_string()));
    assert_eq!(namespace_to_slug("-x"), Some("x".to_string()));
    assert_eq!(namespace_to_slug("prj"), None);
    assert_eq!(namespace_to_slug(""), None);
}

#[test]
fn route_host_and_status() {
    let config = defaults();
    assert_eq!(build_host(&config, "port-1", "happy-otter"), "port-1-happy-otter.kupo-m1.demeter.run");
    let status = route_status(&config, "port-1", "prj-happy-otter").unwrap();
    assert_eq!(
        status.endpoint_url,
        Some("https://port-1-happy-otter.kupo-m1.demeter.run".to_string())
    );
    assert_eq!(status.auth_token, None);
    assert!(route_status(&config, "port-1", "nohyphen").is_none());
}

#[test]
fn port_types_hold_their_fields() {
    let spec = KupoPortSpec {
        operator_version: "1".to_string(),
        network: "preprod".to_string(),
        prune_utxo: true,
        throughput_tier: "0".to_string(),
        authorization: false,
    };
    assert_eq!(get_rate_limit_name(&spec.throughput_tier), "rate-limiting-kupo-tier-0");
    assert!(spec.prune_utxo && !spec.authorization);
    assert_eq!((spec.operator_version.as_str(), spec.network.as_str()), ("1", "preprod"));
    let status = KupoPortStatus { endpoint_url: None, auth_token: Some("t".to_string()) };
    assert_eq!(status.endpoint_url, None);
    assert_eq!(status.auth_token.as_deref(), Some("t"));
}

fn by_hand(name: &str, namespace: &str, salt: &str) -> String {
    let password = format!("{}{}", name, namespace);
    let mut output = vec![0u8; 16];
    let _ = argon2::Argon2::default().hash_password_into(
        password.as_bytes(),
        salt.as_bytes(),
        &mut output,
    );
    let encoded = base64::Engine::encode(&base64::engine::general_purpose::URL_SAFE_NO_PAD, output);
    bech32::encode("dmtr_kupo", bech32::ToBase32::to_base32(&encoded), bech32::Variant::Bech32)
        .unwrap()
}

#[test]
fn api_key_is_the_wrapped_hash() {
    let key = generate_api_key("kupo-auth-port-1", "prj-happy-otter", "kupo-salt").unwrap();
    assert_eq!(key, by_hand("kupo-auth-port-1", "prj-happy-otter", "kupo-salt"));
    assert!(key.starts_with("dmtr_kupo1"));
    // 16 bytes are 22 characters of base64, which are 36 of Bech32, and 6 of checksum
    assert_eq!(key.len(), "dmtr_kupo1".len() + 36 + 6);
    assert_eq!(generate_api_key("kupo-auth-port-1", "prj-happy-otter", "kupo-salt").unwrap(), key);
    assert_ne!(generate_api_key("kupo-auth-port-2", "prj-happy-otter", "kupo-salt").unwrap(), key);
    assert_ne!(generate_api_key("kupo-auth-port-1", "prj-happy-otter", "other-salt").unwrap(), key);
    // name and namespace are hashed as one text
    assert_eq!(generate_api_key("kupo-auth-port-1prj", "-happy-otter", "kupo-salt").unwrap(), key);
}

#[test]
fn api_key_of_a_salt_that_argon2_turns_down() {
    // a salt under eight bytes: the hash is left out and sixteen zero bytes are wrapped
    let key = generate_api_key("a", "b", "short").unwrap();
    assert_eq!(key, by_hand("a", "b", "short"));
    assert_eq!(key, generate_api_key("c", "d", "").unwrap());
    let zeros = base64::Engine::encode(&base64::engine::general_purpose::URL_SAFE_NO_PAD, [0u8; 16]);
    assert_eq!(zeros, "AAAAAAAAAAAAAAAAAAAAAA");
}

#[test]
fn bare_environment_gives_the_defaults() {
    let bare = get_config();
    let made = defaults();
    assert_eq!(bare.dns_zone, made.dns_zone);
    assert_eq!(bare.namespace, made.namespace);
    assert_eq!(bare.ingress_class, made.ingress_class);
    assert_eq!(bare.api_key_salt, made.api_key_salt);
    assert_eq!(bare.http_port, made.http_port);
    assert_eq!(bare.metrics_delay, made.metrics_delay);
    assert_eq!(bare.default_kupo_version, made.default_kupo_version);
    let (hostname, _) = build_hostname(&bare, "mainnet", "k", &None);
    assert_eq!(hostname, "mainnet-v2.kupo-m1.demeter.run");
}

#[test]
fn api_key_is_made_of_five_bit_groups() {
    // the text after the separator uses the Bech32 alphabet only
    let key = generate_api_key("n", "ns", "kupo-salt").unwrap();
    let data = &key["dmtr_kupo1".len()..];
    assert!(data.chars().all(|c| "qpzry9x8gf2tvdw0s3jn54khce6mua7l".contains(c)));
    let (hrp, groups, variant) = bech32::decode(&key).unwrap();
    assert_eq!(hrp, "dmtr_kupo");
    assert_eq!(variant, bech32::Variant::Bech32);
    let bytes: Vec<u8> = bech32::FromBase32::from_base32(&groups).unwrap();
    assert_eq!(bytes.len(), 22);
    assert!(String::from_utf8(bytes).unwrap().chars().all(|c| c.is_ascii_alphanumeric() || c == '-' || c == '_'));
}
