[package]
name = "kupo_proxy"
version = "0.1.0"
edition = "2021"
publish = false

[dependencies]
toml = "=0.8.23"
argon2 = "=0.5.3"
base64 = "=0.22.1"
bech32 = "=0.9.1"
pingora = { version = "0.9", features = ["proxy", "openssl"] }
tokio = { version = "1", features = ["full"] }
notify = "6"
reqwest = { version = "0.12", default-features = false, features = ["json"] }
serde = { version = "1", features = ["derive"] }
serde_json = "1"
prometheus = "0.13"
tracing = "0.1"
tracing-subscriber = "0.3"
dotenv = "0.15"
async-trait = "0.1"
futures = "0.3"
kube = { version = "0.87", default-features = false, features = ["client", "runtime", "derive"] }
k8s-openapi = { version = "0.20", features = ["latest"] }
schemars = "0.8"
