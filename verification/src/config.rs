//! The proxy's settings, and how they are made of what the environment
//! holds.
use vstd::prelude::*;
use crate::filter::{instance, instance_name};
use crate::text::{number_of, parse_number};

verus! {

/// The settings of a running proxy.
#[derive(Debug)]
pub struct Config {
    pub proxy_addr: String,
    pub proxy_namespace: String,
    pub proxy_tiers_path: String,
    pub prometheus_addr: String,
    pub ssl_crt_path: String,
    pub ssl_key_path: String,
    pub kupo_port: u16,
    pub kupo_dns: String,
    pub default_kupo_version: String,
    pub health_endpoint: String,
    /// Seconds between two polls of the upstream's health.
    pub health_poll_interval: u64,
    /// The network whose backend the health monitor polls.
    pub network: String,
}

/// The variables that the settings are made of, each as the environment
/// holds it.
#[derive(Debug)]
pub struct Settings {
    pub proxy_addr: Option<String>,
    pub proxy_namespace: Option<String>,
    pub proxy_tiers_path: Option<String>,
    pub prometheus_addr: Option<String>,
    pub ssl_crt_path: Option<String>,
    pub ssl_key_path: Option<String>,
    pub kupo_port: Option<String>,
    pub kupo_dns: Option<String>,
    pub default_kupo_version: Option<String>,
    pub health_endpoint: Option<String>,
    pub health_poll_interval: Option<String>,
    pub network: Option<String>,
}

/// A variable of the environment.
#[derive(Clone, Copy, Debug, PartialEq, Eq, Structural)]
pub enum Setting {
    ProxyAddr,
    ProxyNamespace,
    ProxyTiersPath,
    PrometheusAddr,
    SslCrtPath,
    SslKeyPath,
    KupoPort,
    KupoDns,
    HealthPollInterval,
}

/// Why no settings could be made.
#[derive(Clone, Copy, Debug, PartialEq, Eq, Structural)]
pub enum SettingError {
    /// The variable has to be set and is not.
    Missing(Setting),
    /// The variable has to hold a number and does not, or one too large.
    NotANumber(Setting),
}

/// The version under which tenants are filed where none is configured; it
/// is written as hosts carry it after `-v`.
pub open spec fn default_version() -> Seq<char> {
    "2"@
}

/// The health-check path where none is configured.
pub open spec fn default_health_endpoint() -> Seq<char> {
    "/dmtr_health"@
}

/// The network whose backend is polled where none is configured.
pub open spec fn default_network() -> Seq<char> {
    "mainnet"@
}

/// Seconds between two health polls where none are configured.
pub const DEFAULT_HEALTH_POLL_INTERVAL: u64 = 10;

/// The first thing that is wrong with the variables, in the order in which
/// they are read.
pub open spec fn first_fault(settings: Settings) -> Option<SettingError> {
    if settings.proxy_addr is None {
        Some(SettingError::Missing(Setting::ProxyAddr))
    } else if settings.proxy_namespace is None {
        Some(SettingError::Missing(Setting::ProxyNamespace))
    } else if settings.proxy_tiers_path is None {
        Some(SettingError::Missing(Setting::ProxyTiersPath))
    } else if settings.prometheus_addr is None {
        Some(SettingError::Missing(Setting::PrometheusAddr))
    } else if settings.ssl_crt_path is None {
        Some(SettingError::Missing(Setting::SslCrtPath))
    } else if settings.ssl_key_path is None {
        Some(SettingError::Missing(Setting::SslKeyPath))
    } else if settings.kupo_port is None {
        Some(SettingError::Missing(Setting::KupoPort))
    } else if number_of(settings.kupo_port.unwrap()@, u16::MAX as nat) is None {
        Some(SettingError::NotANumber(Setting::KupoPort))
    } else if settings.kupo_dns is None {
        Some(SettingError::Missing(Setting::KupoDns))
    } else if settings.health_poll_interval is Some && number_of(
        settings.health_poll_interval.unwrap()@,
        u64::MAX as nat,
    ) is None {
        Some(SettingError::NotANumber(Setting::HealthPollInterval))
    } else {
        None
    }
}

/// Whether `config` is what the variables say, with the defaults where a
/// variable may be left out.
pub open spec fn made_of(config: Config, settings: Settings) -> bool {
    &&& first_fault(settings) is None
    &&& config.proxy_addr@ == settings.proxy_addr.unwrap()@
    &&& config.proxy_namespace@ == settings.proxy_namespace.unwrap()@
    &&& config.proxy_tiers_path@ == settings.proxy_tiers_path.unwrap()@
    &&& config.prometheus_addr@ == settings.prometheus_addr.unwrap()@
    &&& config.ssl_crt_path@ == settings.ssl_crt_path.unwrap()@
    &&& config.ssl_key_path@ == settings.ssl_key_path.unwrap()@
    &&& Some(config.kupo_port as nat) == number_of(settings.kupo_port.unwrap()@, u16::MAX as nat)
    &&& config.kupo_dns@ == settings.kupo_dns.unwrap()@
    &&& config.default_kupo_version@ == match settings.default_kupo_version {
        Some(version) => version@,
        None => default_version(),
    }
    &&& config.health_endpoint@ == match settings.health_endpoint {
        Some(path) => path@,
        None => default_health_endpoint(),
    }
    &&& match settings.health_poll_interval {
        Some(seconds) => Some(config.health_poll_interval as nat) == number_of(
            seconds@,
            u64::MAX as nat,
        ),
        None => config.health_poll_interval == DEFAULT_HEALTH_POLL_INTERVAL,
    }
    &&& config.network@ == match settings.network {
        Some(network) => network@,
        None => default_network(),
    }
}

impl Setting {
    /// The variable's name in the environment.
    pub fn name(&self) -> (name: &'static str)
        ensures
            name@ == match *self {
                Setting::ProxyAddr => "PROXY_ADDR"@,
                Setting::ProxyNamespace => "PROXY_NAMESPACE"@,
                Setting::ProxyTiersPath => "PROXY_TIERS_PATH"@,
                Setting::PrometheusAddr => "PROMETHEUS_ADDR"@,
                Setting::SslCrtPath => "SSL_CRT_PATH"@,
                Setting::SslKeyPath => "SSL_KEY_PATH"@,
                Setting::KupoPort => "KUPO_PORT"@,
                Setting::KupoDns => "KUPO_DNS"@,
                Setting::HealthPollInterval => "HEALTH_POLL_INTERVAL"@,
            },
    {
        match self {
            Setting::ProxyAddr => "PROXY_ADDR",
            Setting::ProxyNamespace => "PROXY_NAMESPACE",
            Setting::ProxyTiersPath => "PROXY_TIERS_PATH",
            Setting::PrometheusAddr => "PROMETHEUS_ADDR",
            Setting::SslCrtPath => "SSL_CRT_PATH",
            Setting::SslKeyPath => "SSL_KEY_PATH",
            Setting::KupoPort => "KUPO_PORT",
            Setting::KupoDns => "KUPO_DNS",
            Setting::HealthPollInterval => "HEALTH_POLL_INTERVAL",
        }
    }
}

impl Config {
    /// The settings that the variables describe, or the first thing that
    /// is wrong with them.
    pub fn new(settings: Settings) -> (made: Result<Config, SettingError>)
        ensures
            match made {
                Ok(config) => made_of(config, settings),
                Err(error) => first_fault(settings) == Some(error),
            },
    {
        let proxy_addr = match settings.proxy_addr {
            Some(value) => value,
            None => {
                return Err(SettingError::Missing(Setting::ProxyAddr));
            },
        };
        let proxy_namespace = match settings.proxy_namespace {
            Some(value) => value,
            None => {
                return Err(SettingError::Missing(Setting::ProxyNamespace));
            },
        };
        let proxy_tiers_path = match settings.proxy_tiers_path {
            Some(value) => value,
            None => {
                return Err(SettingError::Missing(Setting::ProxyTiersPath));
            },
        };
        let prometheus_addr = match settings.prometheus_addr {
            Some(value) => value,
            None => {
                return Err(SettingError::Missing(Setting::PrometheusAddr));
            },
        };
        let ssl_crt_path = match settings.ssl_crt_path {
            Some(value) => value,
            None => {
                return Err(SettingError::Missing(Setting::SslCrtPath));
            },
        };
        let ssl_key_path = match settings.ssl_key_path {
            Some(value) => value,
            None => {
                return Err(SettingError::Missing(Setting::SslKeyPath));
            },
        };
        let kupo_port: u16 = match &settings.kupo_port {
            Some(value) => match parse_number(value.as_str(), 65535) {
                Some(port) => port as u16,
                None => {
                    return Err(SettingError::NotANumber(Setting::KupoPort));
                },
            },
            None => {
                return Err(SettingError::Missing(Setting::KupoPort));
            },
        };
        let kupo_dns = match settings.kupo_dns {
            Some(value) => value,
            None => {
                return Err(SettingError::Missing(Setting::KupoDns));
            },
        };
        let health_poll_interval = match &settings.health_poll_interval {
            Some(value) => match parse_number(value.as_str(), u64::MAX) {
                Some(seconds) => seconds,
                None => {
                    return Err(SettingError::NotANumber(Setting::HealthPollInterval));
                },
            },
            None => DEFAULT_HEALTH_POLL_INTERVAL,
        };
        let default_kupo_version = match settings.default_kupo_version {
            Some(value) => value,
            None => String::from_str("2"),
        };
        let health_endpoint = match settings.health_endpoint {
            Some(value) => value,
            None => String::from_str("/dmtr_health"),
        };
        let network = match settings.network {
            Some(value) => value,
            None => String::from_str("mainnet"),
        };
        Ok(
            Config {
                proxy_addr,
                proxy_namespace,
                proxy_tiers_path,
                prometheus_addr,
                ssl_crt_path,
                ssl_key_path,
                kupo_port,
                kupo_dns,
                default_kupo_version,
                health_endpoint,
                health_poll_interval,
                network,
            },
        )
    }

    /// The address of the backend that the health monitor polls: that of
    /// the configured network, in the pruned variant or the full one.
    pub fn instance(&self, pruned: bool) -> (name: String)
        ensures
            name@ == instance_name(self.network@, pruned, self.kupo_dns@, self.kupo_port),
    {
        instance(self.network.as_str(), pruned, self.kupo_dns.as_str(), self.kupo_port)
    }
}

} // verus!
