use kupo_proxy::config::{Config, Settings};
use kupo_proxy::filter::{identify, instance, new_ctx, request_filter, throttle, Outcome};
use kupo_proxy::limiter::Limiter;
use kupo_proxy::policy::{update_tiers, Reload};
use kupo_proxy::tenant::{hash_key, Consumer, Directory};
use kupo_proxy::tiers::TierRegistry;

fn config() -> Config {
    Config::new(Settings {
        proxy_addr: Some("0.0.0.0:8443".to_string()),
        proxy_namespace: Some("ftr-kupo-v1".to_string()),
        proxy_tiers_path: Some("/etc/tiers.toml".to_string()),
        prometheus_addr: Some("0.0.0.0:9090".to_string()),
        ssl_crt_path: Some("/certs/tls.crt".to_string()),
        ssl_key_path: Some("/certs/tls.key".to_string()),
        kupo_port: Some("1442".to_string()),
        kupo_dns: Some("internal.svc".to_string()),
        default_kupo_version: None,
        health_endpoint: Some("/healthz".to_string()),
        health_poll_interval: None,
        network: None,
    })
    .unwrap()
}

fn tenant(tier: &str, key: &str) -> Consumer {
    Consumer::new(
        "prj-alpha".to_string(),
        "port-a".to_string(),
        tier.to_string(),
        key.to_string(),
    )
}

struct World {
    config: Config,
    directory: Directory,
    tiers: TierRegistry,
    limiter: Limiter,
}

fn world(policy: &str) -> World {
    let mut tiers = TierRegistry::new();
    let mut limiter = Limiter::new();
    assert_eq!(update_tiers(&mut tiers, &mut limiter, policy), Ok(Reload::Applied));
    let mut directory = Directory::new();
    directory.upsert(
        hash_key("preprod", "2", "dmtr_kupo1xyz"),
        tenant("starter", "dmtr_kupo1xyz"),
    );
    World { config: config(), directory, tiers, limiter }
}

const HOST_WITH_KEY: &str = "dmtr_kupo1xyz.preprod-v2.kupo-m1.example.com";
const HOST_WITHOUT_KEY: &str = "preprod-v2.kupo-m1.example.com";
const STARTER: &str = "[[tiers]]\nname = \"starter\"\nminute = 10\n";

fn ask(w: &mut World, host: Option<&str>, header: Option<&str>, now: u64) -> Outcome {
    request_filter(&w.config, &w.directory, &w.tiers, &mut w.limiter, "/matches", host, header, now)
        .0
}

#[test]
fn starter_tier_allows_ten_per_minute() {
    let mut w = world(STARTER);
    for i in 0..10u64 {
        assert_eq!(ask(&mut w, Some(HOST_WITH_KEY), None, 1_000 + i * 5_000), Outcome::Forward);
    }
    assert_eq!(ask(&mut w, Some(HOST_WITH_KEY), None, 59_000), Outcome::TooManyRequests);
    assert_eq!(Outcome::TooManyRequests.status(), Some(429));
    // 61 seconds after the first request
    assert_eq!(ask(&mut w, Some(HOST_WITH_KEY), None, 62_000), Outcome::Forward);
}

#[test]
fn window_slides_with_the_oldest_request() {
    let mut w = world("[[tiers]]\nname = \"starter\"\nsecond = 2\n");
    assert_eq!(ask(&mut w, Some(HOST_WITH_KEY), None, 10_000), Outcome::Forward);
    assert_eq!(ask(&mut w, Some(HOST_WITH_KEY), None, 10_600), Outcome::Forward);
    assert_eq!(ask(&mut w, Some(HOST_WITH_KEY), None, 10_999), Outcome::TooManyRequests);
    // the request of 10_000 is out of the window at 11_000, that of 10_600 is not
    assert_eq!(ask(&mut w, Some(HOST_WITH_KEY), None, 11_000), Outcome::Forward);
    assert_eq!(ask(&mut w, Some(HOST_WITH_KEY), None, 11_100), Outcome::TooManyRequests);
    assert_eq!(ask(&mut w, Some(HOST_WITH_KEY), None, 11_600), Outcome::Forward);
}

#[test]
fn rejected_requests_are_not_counted() {
    let mut w = world("[[tiers]]\nname = \"starter\"\nsecond = 1\n");
    assert_eq!(ask(&mut w, Some(HOST_WITH_KEY), None, 0), Outcome::Forward);
    for t in 1..50u64 {
        assert_eq!(ask(&mut w, Some(HOST_WITH_KEY), None, t * 10), Outcome::TooManyRequests);
    }
    assert_eq!(ask(&mut w, Some(HOST_WITH_KEY), None, 1_000), Outcome::Forward);
}

#[test]
fn every_rule_of_a_tier_has_to_pass() {
    let mut w = world("[[tiers]]\nname = \"starter\"\nsecond = 2\nminute = 3\n");
    assert_eq!(ask(&mut w, Some(HOST_WITH_KEY), None, 0), Outcome::Forward);
    assert_eq!(ask(&mut w, Some(HOST_WITH_KEY), None, 1), Outcome::Forward);
    // the second's rule is full
    assert_eq!(ask(&mut w, Some(HOST_WITH_KEY), None, 2), Outcome::TooManyRequests);
    assert_eq!(ask(&mut w, Some(HOST_WITH_KEY), None, 2_000), Outcome::Forward);
    // the minute's rule is full although the second's has room
    assert_eq!(ask(&mut w, Some(HOST_WITH_KEY), None, 5_000), Outcome::TooManyRequests);
    assert_eq!(ask(&mut w, Some(HOST_WITH_KEY), None, 60_000), Outcome::Forward);
}

#[test]
fn key_is_taken_from_host_or_header() {
    let mut w = world(STARTER);
    let (outcome, ctx) = request_filter(
        &w.config,
        &w.directory,
        &w.tiers,
        &mut w.limiter,
        "/matches",
        Some(HOST_WITHOUT_KEY),
        Some("dmtr_kupo1xyz"),
        5,
    );
    assert_eq!(outcome, Outcome::Forward);
    assert_eq!(ctx.consumer.key(), "dmtr_kupo1xyz");
    assert_eq!(ctx.consumer.to_string(), "prj-alpha.port-a");
    assert_eq!(ctx.instance, "kupo-preprod-pruned.internal.svc:1442");
    assert!(!ctx.is_health_request);
    // the key in the host wins over the header
    assert_eq!(ask(&mut w, Some(HOST_WITH_KEY), Some("dmtr_other"), 6), Outcome::Forward);
}

#[test]
fn unknown_tenant_is_unauthorized_and_leaves_no_counter() {
    let mut w = world(STARTER);
    let host = "dmtr_nobody.preprod-v2.kupo-m1.example.com";
    let (outcome, ctx) = request_filter(
        &w.config,
        &w.directory,
        &w.tiers,
        &mut w.limiter,
        "/matches",
        Some(host),
        None,
        5,
    );
    assert_eq!(outcome, Outcome::Unauthorized);
    assert_eq!(outcome.status(), Some(401));
    assert_eq!(ctx.instance, "");
    assert!(!w.limiter.has_limiter("dmtr_nobody"));
    assert!(!w.limiter.has_limiter("dmtr_kupo1xyz"));
    // no key at all
    assert_eq!(ask(&mut w, Some(HOST_WITHOUT_KEY), None, 6), Outcome::Unauthorized);
    // the right key on another network or version
    let other = "dmtr_kupo1xyz.mainnet-v2.kupo-m1.example.com";
    assert_eq!(ask(&mut w, Some(other), None, 7), Outcome::Unauthorized);
    let newer = "dmtr_kupo1xyz.preprod-v3.kupo-m1.example.com";
    assert_eq!(ask(&mut w, Some(newer), None, 8), Outcome::Unauthorized);
    assert!(!w.limiter.has_limiter("dmtr_kupo1xyz"));
}

#[test]
fn malformed_or_missing_host_is_a_bad_request() {
    let mut w = world(STARTER);
    assert_eq!(ask(&mut w, Some("example.com"), Some("dmtr_kupo1xyz"), 1), Outcome::BadRequest);
    assert_eq!(ask(&mut w, None, Some("dmtr_kupo1xyz"), 2), Outcome::BadRequest);
    assert_eq!(Outcome::BadRequest.status(), Some(400));
    assert!(!w.limiter.has_limiter("dmtr_kupo1xyz"));
}

#[test]
fn health_path_is_answered_before_anything_else() {
    let mut w = world("[[tiers]]\nname = \"starter\"\nminute = 1\n");
    for t in 0..5u64 {
        let (outcome, ctx) = request_filter(
            &w.config,
            &w.directory,
            &w.tiers,
            &mut w.limiter,
            "/healthz",
            None,
            None,
            t,
        );
        assert_eq!(outcome, Outcome::Health);
        assert_eq!(outcome.status(), Some(200));
        assert!(!outcome.keeps_alive());
        assert!(ctx.is_health_request);
    }
    assert!(!w.limiter.has_limiter("dmtr_kupo1xyz"));
    // health checks did not use up the tenant's single request
    assert_eq!(ask(&mut w, Some(HOST_WITH_KEY), None, 9), Outcome::Forward);
}

#[test]
fn undefined_tier_always_allows() {
    let mut w = world(STARTER);
    w.directory.upsert(hash_key("preprod", "2", "dmtr_free"), tenant("unheard-of", "dmtr_free"));
    let host = "dmtr_free.preprod-v2.kupo-m1.example.com";
    for t in 0..200u64 {
        assert_eq!(ask(&mut w, Some(host), None, t), Outcome::Forward);
    }
    assert!(!w.limiter.has_limiter("dmtr_free"));
    // the missing tier is there to be warned of
    let (_, ctx) = request_filter(
        &w.config,
        &w.directory,
        &w.tiers,
        &mut w.limiter,
        "/matches",
        Some(host),
        None,
        300,
    );
    assert!(ctx.tier_missing);
    let (_, ctx) = request_filter(
        &w.config,
        &w.directory,
        &w.tiers,
        &mut w.limiter,
        "/matches",
        Some(HOST_WITH_KEY),
        None,
        300,
    );
    assert!(!ctx.tier_missing);
}

#[test]
fn reload_resets_every_count() {
    let mut w = world("[[tiers]]\nname = \"starter\"\nminute = 3\n");
    for t in 0..3u64 {
        assert_eq!(ask(&mut w, Some(HOST_WITH_KEY), None, t), Outcome::Forward);
    }
    assert_eq!(ask(&mut w, Some(HOST_WITH_KEY), None, 10), Outcome::TooManyRequests);
    assert_eq!(
        update_tiers(&mut w.tiers, &mut w.limiter, "[[tiers]]\nname = \"starter\"\nminute = 1\n"),
        Ok(Reload::Applied)
    );
    assert!(!w.limiter.has_limiter("dmtr_kupo1xyz"));
    assert_eq!(ask(&mut w, Some(HOST_WITH_KEY), None, 11), Outcome::Forward);
    assert_eq!(ask(&mut w, Some(HOST_WITH_KEY), None, 12), Outcome::TooManyRequests);
}

#[test]
fn throttled_connection_is_closed() {
    assert!(!Outcome::TooManyRequests.keeps_alive());
    assert!(Outcome::Unauthorized.keeps_alive());
    assert!(Outcome::BadRequest.keeps_alive());
    assert!(Outcome::Forward.keeps_alive());
    assert_eq!(Outcome::Forward.status(), None);
}

#[test]
fn instance_names_the_backend() {
    assert_eq!(instance("preprod", true, "svc.local", 1442), "kupo-preprod-pruned.svc.local:1442");
    assert_eq!(instance("mainnet", false, "svc.local", 80), "kupo-mainnet.svc.local:80");
    assert_eq!(instance("x", true, "", 0), "kupo-x-pruned.:0");
    assert_eq!(instance("x", false, "d", 65535), "kupo-x.d:65535");
}

#[test]
fn full_backend_is_chosen_by_the_record() {
    let mut w = world(STARTER);
    w.directory.upsert(
        hash_key("preprod", "2", "dmtr_full"),
        tenant("starter", "dmtr_full").with_pruned(false),
    );
    let (outcome, ctx) = request_filter(
        &w.config,
        &w.directory,
        &w.tiers,
        &mut w.limiter,
        "/matches",
        Some("dmtr_full.preprod-v2.kupo-m1.example.com"),
        None,
        1,
    );
    assert_eq!(outcome, Outcome::Forward);
    assert_eq!(ctx.instance, "kupo-preprod.internal.svc:1442");
    assert!(!ctx.consumer.pruned());
}

#[test]
fn blank_context_knows_nothing() {
    let ctx = new_ctx();
    assert!(!ctx.is_health_request);
    assert_eq!(ctx.instance, "");
    assert_eq!(ctx.consumer.to_string(), ".");
    assert_eq!(ctx.consumer.tier(), "");
    assert!(!ctx.tier_missing);
    assert_eq!(kupo_proxy::filter::key_header_name(), "dmtr-api-key");
    assert_eq!(kupo_proxy::filter::health_body(), "OK");
}

#[test]
fn finished_requests_are_counted_under_five_labels() {
    let mut w = world(STARTER);
    let (_, ctx) = request_filter(
        &w.config,
        &w.directory,
        &w.tiers,
        &mut w.limiter,
        "/matches",
        Some(HOST_WITH_KEY),
        None,
        1,
    );
    let labels = kupo_proxy::metrics::logging(&ctx, "ftr-kupo-v1", Some(200)).unwrap();
    assert_eq!(labels.consumer, "prj-alpha.port-a");
    assert_eq!(labels.namespace, "ftr-kupo-v1");
    assert_eq!(labels.instance, "kupo-preprod-pruned.internal.svc:1442");
    assert_eq!(labels.status_code, "200");
    assert_eq!(labels.tier, "starter");
    // nothing was written
    assert_eq!(kupo_proxy::metrics::logging(&ctx, "n", None).unwrap().status_code, "0");
    // a rejected request is counted under the record it got as far as
    let (outcome, ctx) = request_filter(
        &w.config,
        &w.directory,
        &w.tiers,
        &mut w.limiter,
        "/matches",
        Some("example.com"),
        None,
        2,
    );
    let labels = kupo_proxy::metrics::logging(&ctx, "n", outcome.status()).unwrap();
    assert_eq!(labels.consumer, ".");
    assert_eq!(labels.instance, "");
    assert_eq!(labels.status_code, "400");
    assert_eq!(labels.tier, "");
}

#[test]
fn health_checks_are_not_counted() {
    let mut w = world(STARTER);
    let (_, ctx) = request_filter(
        &w.config,
        &w.directory,
        &w.tiers,
        &mut w.limiter,
        "/healthz",
        Some(HOST_WITH_KEY),
        None,
        1,
    );
    assert!(kupo_proxy::metrics::logging(&ctx, "ftr-kupo-v1", Some(200)).is_none());
}

#[test]
fn filter_is_its_two_halves() {
    let mut w = world("[[tiers]]\nname = \"starter\"\nminute = 1\n");
    // answered without a limiter
    let (answered, ctx) = identify(&w.config, &w.directory, "/healthz", None, None);
    assert_eq!(answered, Some(Outcome::Health));
    assert!(ctx.is_health_request);
    let (answered, _) = identify(&w.config, &w.directory, "/m", Some("example.com"), None);
    assert_eq!(answered, Some(Outcome::BadRequest));
    let (answered, _) = identify(&w.config, &w.directory, "/m", Some(HOST_WITHOUT_KEY), None);
    assert_eq!(answered, Some(Outcome::Unauthorized));
    // a known tenant is left to its limits
    let (answered, ctx) = identify(&w.config, &w.directory, "/m", Some(HOST_WITH_KEY), None);
    assert_eq!(answered, None);
    assert_eq!(ctx.consumer.key(), "dmtr_kupo1xyz");
    assert_eq!(ctx.instance, "kupo-preprod-pruned.internal.svc:1442");
    assert!(!w.limiter.has_limiter("dmtr_kupo1xyz"));
    let (outcome, ctx) = throttle(&w.tiers, &mut w.limiter, ctx, 5);
    assert_eq!(outcome, Outcome::Forward);
    assert!(!ctx.tier_missing);
    assert!(w.limiter.has_limiter("dmtr_kupo1xyz"));
    let (_, ctx) = identify(&w.config, &w.directory, "/m", Some(HOST_WITH_KEY), None);
    let (outcome, ctx) = throttle(&w.tiers, &mut w.limiter, ctx, 6);
    assert_eq!(outcome, Outcome::TooManyRequests);
    assert_eq!(ctx.consumer.key(), "dmtr_kupo1xyz");
    // the whole filter agrees with the halves
    assert_eq!(ask(&mut w, Some(HOST_WITH_KEY), None, 7), Outcome::TooManyRequests);
    assert_eq!(ask(&mut w, Some(HOST_WITH_KEY), None, 60_005), Outcome::Forward);
}
