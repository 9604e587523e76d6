[package]
name = "org-roamers"
version = "0.1.0"
edition = "2021"
publish = false

[dependencies]
orgize = "=0.10.0-alpha.10"
argon2 = "=0.5.3"
# argon2's salts come from `OsRng`, which needs rand_core's `getrandom` feature.
rand_core = { version = "=0.6.4", features = ["getrandom"] }
chardetng = "=0.1.17"
encoding_rs = "=0.8.44"
fuzzy-matcher = "=0.3.7"
tokio = { version = "=1.54.1", features = ["full"] }
axum = { version = "=0.7.9", features = ["ws"] }
sqlx = { version = "=0.8.6", default-features = false, features = ["runtime-tokio", "sqlite"] }
tower-sessions = "=0.13.0"
tower-sessions-sqlx-store = { version = "=0.14.2", features = ["sqlite"] }
tower-http = { version = "=0.5.2", features = ["cors"] }
time = "=0.3.55"
futures-util = "=0.3.34"
tokio-util = "=0.7.20"
serde = { version = "=1.0.229", features = ["derive"] }
serde_json = "=1.0.154"
tracing = "=0.1.44"
tracing-subscriber = "=0.3.23"
clap = { version = "=4.6.7", features = ["derive"] }
anyhow = "=1.0.104"
thiserror = "=1.0.69"
dashmap = "=6.2.1"
