[package]
name = "webauthn_tiny"
version = "0.1.0"
edition = "2021"
publish = false

[dependencies]
anyhow = "=1.0.104"
argon2 = "=0.5.3"
async-trait = "=0.1.92"
axum = "=0.8.9"
axum-macros = "=0.5.1"
base64 = "=0.22.1"
clap = { version = "=4.6.7", features = ["derive", "env"] }
# liquid takes any kstring 2.0; from 2.0.5 on kstring needs rustc 1.96
kstring = "=2.0.2"
libsqlite3-sys = "=0.38.2"
liquid = "=0.26.11"
metrics = "=0.24.6"
metrics-exporter-prometheus = { version = "=0.18.3", default-features = false }
rusqlite = "=0.40.2"
serde = { version = "=1.0.229", features = ["derive"] }
serde_json = "=1.0.154"
tokio = { version = "=1.54.1", features = ["full"] }
tokio-rusqlite = "=0.8.0"
tower-http = { version = "=0.7.1", features = ["trace"] }
tower-sessions = "=0.15.0"
tracing = "=0.1.44"
tracing-subscriber = { version = "=0.3.23", features = ["env-filter"] }
url = "=2.5.8"
uuid = { version = "=1.29.0", features = ["v4"] }
webauthn-rs = { version = "=0.5.5", features = ["danger-allow-state-serialisation", "danger-credential-internals"] }
webauthn-rs-proto = "=0.5.5"

[dev-dependencies]
webauthn-authenticator-rs = { version = "=0.5.5", default-features = false, features = ["softtoken"] }
webauthn-rs-core = "=0.5.5"
