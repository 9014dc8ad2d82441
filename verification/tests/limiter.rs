use kupo_proxy::limiter::{Decision, Limiter};
use kupo_proxy::tiers::{Tier, TierRate, TierRegistry, DAY_MS, HOUR_MS, MINUTE_MS, SECOND_MS};

fn registry(name: &str, rates: Vec<TierRate>) -> TierRegistry {
    let mut tiers = TierRegistry::new();
    tiers.define(Tier::new(name.to_string(), rates));
    tiers
}

#[test]
fn limit_plus_one_is_rejected() {
    let tiers = registry("t", vec![TierRate { limit: 3, interval: MINUTE_MS }]);
    let mut limiter = Limiter::new();
    assert_eq!(limiter.check(&tiers, "k", "t", 100).decision, Decision::Allow);
    assert_eq!(limiter.check(&tiers, "k", "t", 200).decision, Decision::Allow);
    assert_eq!(limiter.check(&tiers, "k", "t", 300).decision, Decision::Allow);
    assert_eq!(limiter.check(&tiers, "k", "t", 400).decision, Decision::Reject);
    assert_eq!(limiter.check(&tiers, "k", "t", 60_099).decision, Decision::Reject);
    assert_eq!(limiter.check(&tiers, "k", "t", 60_100).decision, Decision::Allow);
    assert_eq!(limiter.check(&tiers, "k", "t", 60_199).decision, Decision::Reject);
    assert_eq!(limiter.check(&tiers, "k", "t", 60_200).decision, Decision::Allow);
}

#[test]
fn keys_are_counted_apart() {
    let tiers = registry("t", vec![TierRate { limit: 1, interval: SECOND_MS }]);
    let mut limiter = Limiter::new();
    assert_eq!(limiter.check(&tiers, "a", "t", 0).decision, Decision::Allow);
    assert_eq!(limiter.check(&tiers, "b", "t", 0).decision, Decision::Allow);
    assert_eq!(limiter.check(&tiers, "a", "t", 1).decision, Decision::Reject);
    assert_eq!(limiter.check(&tiers, "b", "t", 1).decision, Decision::Reject);
    assert!(limiter.has_limiter("a"));
    assert!(limiter.has_limiter("b"));
    assert!(!limiter.has_limiter("c"));
}

#[test]
fn zero_limit_rejects_everything() {
    let tiers = registry("t", vec![TierRate { limit: 0, interval: HOUR_MS }]);
    let mut limiter = Limiter::new();
    assert_eq!(limiter.check(&tiers, "k", "t", 0).decision, Decision::Reject);
    assert_eq!(limiter.check(&tiers, "k", "t", DAY_MS).decision, Decision::Reject);
}

#[test]
fn tier_without_rules_allows_everything() {
    let tiers = registry("t", vec![]);
    let mut limiter = Limiter::new();
    for t in 0..100 {
        assert_eq!(limiter.check(&tiers, "k", "t", t).decision, Decision::Allow);
    }
}

#[test]
fn missing_tier_allows_and_creates_nothing() {
    let tiers = registry("t", vec![TierRate { limit: 0, interval: HOUR_MS }]);
    let mut limiter = Limiter::new();
    for t in 0..100 {
        assert_eq!(limiter.check(&tiers, "k", "other", t).decision, Decision::Allow);
    }
    assert!(!limiter.has_limiter("k"));
    assert!(limiter.check(&tiers, "k", "other", 0).tier_missing);
    assert!(!limiter.check(&tiers, "k", "t", 0).tier_missing);
}

#[test]
fn clock_that_goes_backwards_keeps_counting() {
    let tiers = registry("t", vec![TierRate { limit: 2, interval: SECOND_MS }]);
    let mut limiter = Limiter::new();
    assert_eq!(limiter.check(&tiers, "k", "t", 5_000).decision, Decision::Allow);
    assert_eq!(limiter.check(&tiers, "k", "t", 4_000).decision, Decision::Allow);
    // a stamp that lies ahead of the clock counts
    assert_eq!(limiter.check(&tiers, "k", "t", 3_000).decision, Decision::Reject);
    assert_eq!(limiter.check(&tiers, "k", "t", 4_999).decision, Decision::Reject);
    assert_eq!(limiter.check(&tiers, "k", "t", 5_000).decision, Decision::Allow);
}

#[test]
fn largest_times_do_not_overflow() {
    let tiers = registry("t", vec![TierRate { limit: 1, interval: u64::MAX }]);
    let mut limiter = Limiter::new();
    assert_eq!(limiter.check(&tiers, "k", "t", 0).decision, Decision::Allow);
    assert_eq!(limiter.check(&tiers, "k", "t", u64::MAX - 1).decision, Decision::Reject);
    assert_eq!(limiter.check(&tiers, "k", "t", u64::MAX).decision, Decision::Allow);
}

#[test]
fn add_limiter_keeps_counters_that_exist() {
    let tiers = registry("t", vec![TierRate { limit: 1, interval: MINUTE_MS }]);
    let mut limiter = Limiter::new();
    assert_eq!(limiter.check(&tiers, "k", "t", 0).decision, Decision::Allow);
    assert_eq!(limiter.check(&tiers, "k", "t", 1).decision, Decision::Reject);
    // a second creation for the key is dropped: its count stays
    limiter.add_limiter("k", &vec![TierRate { limit: 1, interval: MINUTE_MS }]);
    assert!(limiter.has_limiter("k"));
    assert_eq!(limiter.check(&tiers, "k", "t", 2).decision, Decision::Reject);
    limiter.add_limiter("k", &vec![TierRate { limit: 100, interval: MINUTE_MS }]);
    assert_eq!(limiter.check(&tiers, "k", "t", 3).decision, Decision::Reject);
    limiter.clear();
    assert!(!limiter.has_limiter("k"));
}

#[test]
fn add_limiter_creates_counters_for_a_new_key() {
    let tiers = registry("t", vec![TierRate { limit: 5, interval: MINUTE_MS }]);
    let mut limiter = Limiter::new();
    assert!(!limiter.has_limiter("k"));
    limiter.add_limiter("k", &vec![TierRate { limit: 1, interval: MINUTE_MS }]);
    assert!(limiter.has_limiter("k"));
    // the counters have the rules they were created with
    assert_eq!(limiter.check(&tiers, "k", "t", 0).decision, Decision::Allow);
    assert_eq!(limiter.check(&tiers, "k", "t", 1).decision, Decision::Reject);
    // two creations in a row leave one set of counters
    let mut twice = Limiter::new();
    twice.add_limiter("k", &vec![TierRate { limit: 2, interval: MINUTE_MS }]);
    twice.add_limiter("k", &vec![TierRate { limit: 2, interval: MINUTE_MS }]);
    assert_eq!(twice.check(&tiers, "k", "t", 0).decision, Decision::Allow);
    assert_eq!(twice.check(&tiers, "k", "t", 1).decision, Decision::Allow);
    assert_eq!(twice.check(&tiers, "k", "t", 2).decision, Decision::Reject);
}

#[test]
fn counters_keep_the_rules_they_were_made_with() {
    let mut tiers = registry("t", vec![TierRate { limit: 1, interval: MINUTE_MS }]);
    let mut limiter = Limiter::new();
    assert_eq!(limiter.check(&tiers, "k", "t", 0).decision, Decision::Allow);
    tiers.define(Tier::new("t".to_string(), vec![TierRate { limit: 5, interval: MINUTE_MS }]));
    assert_eq!(limiter.check(&tiers, "k", "t", 1).decision, Decision::Reject);
    assert_eq!(limiter.check(&tiers, "fresh", "t", 1).decision, Decision::Allow);
    assert_eq!(limiter.check(&tiers, "fresh", "t", 2).decision, Decision::Allow);
}
