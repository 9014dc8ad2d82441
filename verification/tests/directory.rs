use kupo_proxy::table::KeyedTable;
use kupo_proxy::tenant::{hash_key, Consumer, Directory, Feed};
use kupo_proxy::text::chars_of;
use kupo_proxy::tiers::{copy_rates, Tier, TierRate, TierRegistry};

fn consumer(ns: &str, port: &str, tier: &str, key: &str) -> Consumer {
    Consumer::new(ns.to_string(), port.to_string(), tier.to_string(), key.to_string())
}

#[test]
fn consumer_keeps_what_it_was_made_of() {
    let c = consumer("prj-a", "port-1", "2", "dmtr_kupo1abc");
    assert_eq!(c.namespace(), "prj-a");
    assert_eq!(c.port_name(), "port-1");
    assert_eq!(c.tier(), "2");
    assert_eq!(c.key(), "dmtr_kupo1abc");
    assert!(c.pruned());
    assert_eq!(c.network(), "");
    assert_eq!(c.clone().with_network("preprod".to_string()).network(), "preprod");
    assert_eq!(c.clone().with_network("preprod".to_string()).key(), "dmtr_kupo1abc");
    assert_eq!(c.to_string(), "prj-a.port-1");
    let copy = c.clone();
    assert_eq!(copy.to_string(), "prj-a.port-1");
    assert_eq!(copy.key(), "dmtr_kupo1abc");
    assert!(!copy.with_pruned(false).pruned());
    let blank = Consumer::default();
    assert_eq!(blank.to_string(), ".");
    assert_eq!(blank.key(), "");
}

#[test]
fn directory_key_joins_with_dots() {
    assert_eq!(hash_key("preprod", "2", "dmtr_k"), "preprod.2.dmtr_k");
    assert_eq!(hash_key("", "", ""), "..");
}

#[test]
fn directory_follows_the_watch_feed() {
    let mut directory = Directory::new();
    assert!(directory.lookup("preprod.2.k").is_none());
    directory.upsert("preprod.2.k".to_string(), consumer("a", "p", "0", "k"));
    directory.upsert("mainnet.2.k".to_string(), consumer("b", "q", "1", "k"));
    assert_eq!(directory.lookup("preprod.2.k").unwrap().namespace(), "a");
    assert_eq!(directory.get_consumer("mainnet", "2", "k").unwrap().namespace(), "b");
    assert!(directory.get_consumer("mainnet", "3", "k").is_none());
    // an update replaces the whole record
    directory.upsert("preprod.2.k".to_string(), consumer("c", "r", "5", "k"));
    let found = directory.get_consumer("preprod", "2", "k").unwrap();
    assert_eq!((found.namespace().as_str(), found.port_name().as_str(), found.tier().as_str()), ("c", "r", "5"));
    directory.remove("preprod.2.k");
    assert!(directory.get_consumer("preprod", "2", "k").is_none());
    assert!(directory.get_consumer("mainnet", "2", "k").is_some());
    directory.remove("never-there");
    assert!(directory.get_consumer("mainnet", "2", "k").is_some());
}

#[test]
fn table_is_a_map() {
    let mut table: KeyedTable<u32> = KeyedTable::new();
    assert_eq!(table.len(), 0);
    assert_eq!(table.get("a"), None);
    table.insert("a".to_string(), 1);
    table.insert("b".to_string(), 2);
    table.insert("c".to_string(), 3);
    table.insert("b".to_string(), 20);
    assert_eq!(table.len(), 3);
    assert_eq!(table.get("a"), Some(&1));
    assert_eq!(table.get("b"), Some(&20));
    assert_eq!(table.get("c"), Some(&3));
    assert!(table.contains("c"));
    assert_eq!(table.remove("a"), Some(1));
    assert_eq!(table.remove("a"), None);
    assert_eq!(table.len(), 2);
    assert_eq!(table.get("b"), Some(&20));
    assert_eq!(table.get("c"), Some(&3));
    assert!(!table.contains("a"));
    table.clear();
    assert_eq!(table.len(), 0);
    assert!(!table.contains("b"));
}

#[test]
fn registry_holds_tiers_by_name() {
    let mut tiers = TierRegistry::new();
    assert!(tiers.get("a").is_none());
    tiers.define(Tier::new("a".to_string(), vec![TierRate { limit: 1, interval: 2 }]));
    let tier = tiers.get("a").unwrap().clone();
    assert_eq!(tier.name(), "a");
    assert_eq!(tier.rates(), &vec![TierRate { limit: 1, interval: 2 }]);
    assert_eq!(copy_rates(tier.rates()), vec![TierRate { limit: 1, interval: 2 }]);
    assert!(tiers.get("A").is_none());
}

#[test]
fn characters_of_a_text() {
    assert_eq!(chars_of("a\u{e9}z"), vec!['a', '\u{e9}', 'z']);
    assert!(chars_of("").is_empty());
}

#[test]
fn directory_takes_the_feed_event_by_event() {
    let mut directory = Directory::new();
    directory.apply(Feed::Applied { key: "preprod.2.a".to_string(), record: consumer("n", "p", "0", "a") });
    directory.apply(Feed::Applied { key: "preprod.2.b".to_string(), record: consumer("n", "q", "1", "b") });
    assert_eq!(directory.lookup("preprod.2.a").unwrap().port_name(), "p");
    assert_eq!(directory.lookup("preprod.2.b").unwrap().port_name(), "q");
    directory.apply(Feed::Applied { key: "preprod.2.a".to_string(), record: consumer("n", "r", "2", "a") });
    assert_eq!(directory.lookup("preprod.2.a").unwrap().tier(), "2");
    directory.apply(Feed::Deleted { key: "preprod.2.a".to_string() });
    assert!(directory.lookup("preprod.2.a").is_none());
    assert!(directory.lookup("preprod.2.b").is_some());
    directory.apply(Feed::Deleted { key: "never-there".to_string() });
    // a restart replaces everything; of two records under one key the later counts
    directory.apply(Feed::Restarted {
        records: vec![
            ("mainnet.2.c".to_string(), consumer("n", "s", "0", "c")),
            ("mainnet.2.d".to_string(), consumer("n", "t", "0", "d")),
            ("mainnet.2.c".to_string(), consumer("n", "u", "0", "c")),
        ],
    });
    assert!(directory.lookup("preprod.2.b").is_none());
    assert_eq!(directory.lookup("mainnet.2.c").unwrap().port_name(), "u");
    assert_eq!(directory.lookup("mainnet.2.d").unwrap().port_name(), "t");
    directory.apply(Feed::Restarted { records: vec![] });
    assert!(directory.lookup("mainnet.2.c").is_none());
    assert!(directory.lookup("mainnet.2.d").is_none());
}
