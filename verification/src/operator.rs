//! Names and host names as the control plane gives them to the objects of a
//! tenant.
use vstd::prelude::*;
use crate::text::{chars_of, number_of, parse_number};

verus! {

/// The operator's settings.
#[derive(Debug)]
pub struct Config {
    pub dns_zone: String,
    pub namespace: String,
    pub ingress_class: String,
    pub api_key_salt: String,
    pub http_port: String,
    /// Seconds between two collections of metrics.
    pub metrics_delay: u64,
    pub default_kupo_version: String,
}

/// What a tenant asks for.
#[derive(Debug)]
pub struct KupoPortSpec {
    pub operator_version: String,
    pub network: String,
    pub prune_utxo: bool,
    pub throughput_tier: String,
    pub authorization: bool,
}

/// What the operator reports of a tenant.
#[derive(Debug)]
pub struct KupoPortStatus {
    pub endpoint_url: Option<String>,
    pub auth_token: Option<String>,
}

/// The text of an optional variable, or its default.
pub open spec fn or_default(value: Option<String>, default: Seq<char>) -> Seq<char> {
    match value {
        Some(text) => text@,
        None => default,
    }
}

fn text_or(value: Option<String>, default: &str) -> (text: String)
    ensures
        text@ == or_default(value, default@),
{
    match value {
        Some(text) => text,
        None => String::from_str(default),
    }
}

/// Seconds between two collections of metrics where none are configured.
pub const DEFAULT_METRICS_DELAY: u64 = 30;

impl Config {
    /// The settings that the variables of the environment describe, each
    /// with its default where it is not set. There are none where
    /// `metrics_delay` is set and is not a number.
    pub fn from_env(
        dns_zone: Option<String>,
        namespace: Option<String>,
        ingress_class: Option<String>,
        api_key_salt: Option<String>,
        metrics_delay: Option<String>,
        default_kupo_version: Option<String>,
    ) -> (made: Option<Config>)
        ensures
            match made {
                Some(config) => {
                    &&& config.dns_zone@ == or_default(dns_zone, "demeter.run"@)
                    &&& config.namespace@ == or_default(namespace, "ftr-kupo-v1"@)
                    &&& config.ingress_class@ == or_default(ingress_class, "kupo-m1"@)
                    &&& config.api_key_salt@ == or_default(api_key_salt, "kupo-salt"@)
                    &&& config.http_port@ == "1442"@
                    &&& config.default_kupo_version@ == or_default(default_kupo_version, "2"@)
                    &&& match metrics_delay {
                        Some(seconds) => number_of(seconds@, u64::MAX as nat) == Some(
                            config.metrics_delay as nat,
                        ),
                        None => config.metrics_delay == DEFAULT_METRICS_DELAY,
                    }
                },
                None => metrics_delay is Some && number_of(
                    metrics_delay.unwrap()@,
                    u64::MAX as nat,
                ) is None,
            },
    {
        let delay = match &metrics_delay {
            Some(seconds) => match parse_number(seconds.as_str(), u64::MAX) {
                Some(delay) => delay,
                None => {
                    return None;
                },
            },
            None => DEFAULT_METRICS_DELAY,
        };
        Some(
            Config {
                dns_zone: text_or(dns_zone, "demeter.run"),
                namespace: text_or(namespace, "ftr-kupo-v1"),
                ingress_class: text_or(ingress_class, "kupo-m1"),
                api_key_salt: text_or(api_key_salt, "kupo-salt"),
                http_port: String::from_str("1442"),
                metrics_delay: delay,
                default_kupo_version: text_or(default_kupo_version, "2"),
            },
        )
    }
}

/// The settings of an operator in whose environment none of its variables
/// is set.
pub fn get_config() -> (config: Config)
    ensures
        config.dns_zone@ == "demeter.run"@,
        config.namespace@ == "ftr-kupo-v1"@,
        config.ingress_class@ == "kupo-m1"@,
        config.api_key_salt@ == "kupo-salt"@,
        config.http_port@ == "1442"@,
        config.metrics_delay == DEFAULT_METRICS_DELAY,
        config.default_kupo_version@ == "2"@,
{
    Config {
        dns_zone: String::from_str("demeter.run"),
        namespace: String::from_str("ftr-kupo-v1"),
        ingress_class: String::from_str("kupo-m1"),
        api_key_salt: String::from_str("kupo-salt"),
        http_port: String::from_str("1442"),
        metrics_delay: DEFAULT_METRICS_DELAY,
        default_kupo_version: String::from_str("2"),
    }
}

fn prefixed(prefix: &str, name: &str) -> (joined: String)
    ensures
        joined@ == prefix@ + name@,
{
    let mut joined = String::from_str(prefix);
    joined.append(name);
    joined
}

/// The name of a tenant's key-auth objects.
pub fn get_auth_name(name: &str) -> (full: String)
    ensures
        full@ == "kupo-auth-"@ + name@,
{
    prefixed("kupo-auth-", name)
}

/// The name of a tenant's host-key plugin.
pub fn get_host_key_name(name: &str) -> (full: String)
    ensures
        full@ == "kupo-host-key-"@ + name@,
{
    prefixed("kupo-host-key-", name)
}

/// The name of the rate-limiting plugin of a tier.
pub fn get_rate_limit_name(tier: &str) -> (full: String)
    ensures
        full@ == "rate-limiting-kupo-tier-"@ + tier@,
{
    prefixed("rate-limiting-kupo-tier-", tier)
}

/// The name of a tenant's access-control objects.
pub fn get_acl_name(name: &str) -> (full: String)
    ensures
        full@ == "kupo-acl-"@ + name@,
{
    prefixed("kupo-acl-", name)
}

/// The plugins that a tenant's route is annotated with: key auth, access
/// control and the rate limit of its tier, separated by commas.
pub fn route_plugins(name: &str, tier: &str) -> (plugins: String)
    ensures
        plugins@ == "kupo-auth-"@ + name@ + ","@ + ("kupo-acl-"@ + name@) + ","@ + (
        "rate-limiting-kupo-tier-"@ + tier@),
{
    let mut plugins = get_auth_name(name);
    plugins.append(",");
    plugins.append(get_acl_name(name).as_str());
    plugins.append(",");
    plugins.append(get_rate_limit_name(tier).as_str());
    plugins
}

/// Where the first hyphen at or after `from` stands, or the length of the
/// text where there is none.
pub open spec fn first_hyphen(s: Seq<char>, from: int) -> int
    decreases s.len() - from,
{
    if 0 <= from < s.len() && s[from] != '-' {
        first_hyphen(s, from + 1)
    } else {
        from
    }
}

/// What follows the first hyphen of a namespace, if it has one.
pub open spec fn slug_of(namespace: Seq<char>) -> Option<Seq<char>> {
    let at = first_hyphen(namespace, 0);
    if at < namespace.len() {
        Some(namespace.subrange(at + 1, namespace.len() as int))
    } else {
        None
    }
}

/// The project slug of a namespace: what follows its first hyphen.
pub fn namespace_to_slug(namespace: &str) -> (slug: Option<String>)
    ensures
        match slug {
            Some(text) => slug_of(namespace@) == Some(text@),
            None => slug_of(namespace@) is None,
        },
{
    let chars = chars_of(namespace);
    let total = chars.len();
    let mut at: usize = 0;
    while at < total && chars[at] != '-'
        invariant
            at <= total,
            total == chars@.len(),
            first_hyphen(chars@, 0) == first_hyphen(chars@, at as int),
        decreases total - at,
    {
        at += 1;
    }
    if at < total {
        Some(String::from_str(namespace.substring_char(at + 1, total)))
    } else {
        None
    }
}

/// The host of a tenant's route: name, a hyphen, the project slug, a dot,
/// the ingress class, a dot, the DNS zone.
pub fn build_host(config: &Config, name: &str, project_slug: &str) -> (host: String)
    ensures
        host@ == name@ + "-"@ + project_slug@ + "."@ + config.ingress_class@ + "."@
            + config.dns_zone@,
{
    let mut host = String::from_str(name);
    host.append("-");
    host.append(project_slug);
    host.append(".");
    host.append(config.ingress_class.as_str());
    host.append(".");
    host.append(config.dns_zone.as_str());
    host
}

/// The host of a network at a version, without a key.
pub open spec fn hostname_of(
    network: Seq<char>,
    version: Seq<char>,
    ingress_class: Seq<char>,
    dns_zone: Seq<char>,
) -> Seq<char> {
    network + "-v"@ + version + "."@ + ingress_class + "."@ + dns_zone
}

/// The two hosts of a tenant: the one without its key, and the one that
/// starts with its key and a dot. The version is the given one, or the
/// configured default.
pub fn build_hostname(
    config: &Config,
    network: &str,
    key: &str,
    kupo_version: &Option<String>,
) -> (hosts: (String, String))
    ensures
        hosts.0@ == hostname_of(
            network@,
            match kupo_version {
                Some(version) => version@,
                None => config.default_kupo_version@,
            },
            config.ingress_class@,
            config.dns_zone@,
        ),
        hosts.1@ == key@ + "."@ + hosts.0@,
{
    let version: &str = match kupo_version {
        Some(version) => version.as_str(),
        None => config.default_kupo_version.as_str(),
    };
    let mut hostname = String::from_str(network);
    hostname.append("-v");
    hostname.append(version);
    hostname.append(".");
    hostname.append(config.ingress_class.as_str());
    hostname.append(".");
    hostname.append(config.dns_zone.as_str());
    let mut hostname_key = String::from_str(key);
    hostname_key.append(".");
    hostname_key.append(hostname.as_str());
    (hostname, hostname_key)
}

/// The status that the operator reports once a tenant's route is in place:
/// the route's host as an `https` address, and no token.
pub fn route_status(config: &Config, name: &str, namespace: &str) -> (status: Option<
    KupoPortStatus,
>)
    ensures
        match status {
            Some(status) => {
                &&& slug_of(namespace@) is Some
                &&& status.auth_token is None
                &&& status.endpoint_url is Some
                &&& status.endpoint_url.unwrap()@ == "https://"@ + (name@ + "-"@ + slug_of(
                    namespace@,
                ).unwrap() + "."@ + config.ingress_class@ + "."@ + config.dns_zone@)
            },
            None => slug_of(namespace@) is None,
        },
{
    let slug = match namespace_to_slug(namespace) {
        Some(slug) => slug,
        None => {
            return None;
        },
    };
    let host = build_host(config, name, slug.as_str());
    let mut url = String::from_str("https://");
    url.append(host.as_str());
    Some(KupoPortStatus { endpoint_url: Some(url), auth_token: None })
}

} // verus!
