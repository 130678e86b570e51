[package]
name = "orion"
version = "0.1.0"
edition = "2021"
publish = false

[dependencies]
anyhow = "1"
async-trait = "0.1"
clap = { version = "4", features = ["derive"] }
crossbeam-channel = "0.5"
crossbeam-utils = "0.8"
defer-lite = "1"
prost = "0.11"
prost-types = "0.11"
serde = { version = "1", features = ["derive"] }
sqlx = { version = "0.6", features = ["runtime-tokio-rustls", "postgres"] }
thiserror = "1"
time = { version = "0.3", features = ["macros"] }
tokio = { version = "1", features = ["full"] }
tonic = "0.9"
tracing = "0.1"
tracing-subscriber = { version = "0.3", features = ["env-filter", "time", "local-time"] }
reqwest = { version = "0.11", default-features = false, features = ["json", "rustls-tls"] }
serde_json = "1"

[dev-dependencies]
regex = "1"
