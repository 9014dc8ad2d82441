//! The admission core of a multi-tenant proxy in front of Kupo instances:
//! who a request belongs to, whether its tenant may send it now, and where
//! it goes.

pub mod api_key;
pub mod config;
pub mod filter;
pub mod health;
pub mod host;
pub mod limiter;
pub mod metrics;
pub mod operator;
pub mod policy;
pub mod table;
pub mod tenant;
pub mod text;
pub mod tiers;
pub mod toml_doc;
pub mod watch;
