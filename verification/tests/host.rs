use kupo_proxy::host::{parse_host, ParseError};

fn parts(host: &str) -> (Option<String>, String, String, String) {
    let p = parse_host(host).unwrap();
    (p.key, p.network, p.version, p.qualifier)
}

#[test]
fn host_with_embedded_key() {
    assert_eq!(
        parts("dmtr_kupo1xyz.preprod-v2.kupo-m1.example.com"),
        (Some("dmtr_kupo1xyz".to_string()), "preprod".to_string(), "2".to_string(), "m1".to_string())
    );
}

#[test]
fn host_without_key() {
    assert_eq!(
        parts("preprod-v2.kupo-m1.example.com"),
        (None, "preprod".to_string(), "2".to_string(), "m1".to_string())
    );
}

#[test]
fn key_may_hold_hyphens_and_underscores() {
    assert_eq!(
        parts("dmtr_a-b_c9.mainnet-v10.kupo-m2.demeter.run"),
        (Some("dmtr_a-b_c9".to_string()), "mainnet".to_string(), "10".to_string(), "m2".to_string())
    );
}

#[test]
fn leading_label_that_is_no_key_is_the_network() {
    // `dmtr_x` is followed by `-v1`, not by a dot and a route
    assert_eq!(
        parts("dmtr_x-v1.kupo-m1.example.com"),
        (None, "dmtr_x".to_string(), "1".to_string(), "m1".to_string())
    );
}

#[test]
fn key_is_preferred_where_both_readings_fit() {
    assert_eq!(
        parts("dmtr_a-v1.kupo-v2.kupo-m1.x"),
        (Some("dmtr_a-v1".to_string()), "kupo".to_string(), "2".to_string(), "m1".to_string())
    );
}

#[test]
fn malformed_hosts_are_turned_down() {
    for host in [
        "",
        "example.com",
        "preprod.kupo-m1.example.com",
        "preprod-2.kupo-m1.example.com",
        "preprod-v.kupo-m1.example.com",
        "-v2.kupo-m1.example.com",
        "preprod-v2.kupo-.example.com",
        "preprod-v2.kupo-m1",
        "preprod-v2.ogmios-m1.example.com",
        "dmtr_.preprod-v2.kupo-m1.example.com",
        "dmtr_key.example.com",
        "dmtr_key.",
        "junk.preprod-v2.kupo-m1.example.com",
        "pre prod-v2.kupo-m1.example.com",
        "pr\u{e9}prod-v2.kupo-m1.example.com",
    ] {
        assert_eq!(parse_host(host).err(), Some(ParseError::MalformedHost), "{}", host);
    }
}

#[test]
fn suffix_may_be_anything_that_starts_outside_a_word() {
    assert_eq!(
        parts("preprod-v2.kupo-m1:443"),
        (None, "preprod".to_string(), "2".to_string(), "m1".to_string())
    );
    assert_eq!(
        parts("preprod-v2.kupo-m1."),
        (None, "preprod".to_string(), "2".to_string(), "m1".to_string())
    );
}
