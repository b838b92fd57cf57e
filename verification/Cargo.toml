[package]
name = "storage"
version = "0.1.0"
edition = "2021"
publish = false

[dependencies]
anyhow = "=1.0.104"
axum = "=0.6.20"
axum-client-ip = "=0.4.2"
config = "=0.13.4"
http = "=0.2.12"
jsonwebtoken = "=7.2.0"
maxminddb = "=0.23.0"
radix_trie = "=0.2.1"
rusoto_core = { version = "=0.48.0", default-features = false, features = ["rustls"] }
serde = { version = "=1.0.229", features = ["derive"] }
serde_json = "=1.0.154"
svc-agent = "=0.21.0"
svc-authn = { version = "=0.8.0", features = ["jose"] }
svc-authz = "=0.12.0"
svc-error = "=0.6.0"
svc-utils = { version = "=0.8.0", features = ["authn-extractor", "log-middleware"] }
tokio = { version = "=1.54.1", features = ["full"] }
tower-http = { version = "=0.4.4", features = ["cors"] }
tracing = "=0.1.44"
tracing-appender = "=0.2.5"
tracing-subscriber = { version = "=0.3.23", features = ["env-filter", "json"] }
url = "=2.5.8"
