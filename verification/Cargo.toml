[package]
name = "deployer_persistence"
version = "0.1.0"
edition = "2021"
publish = false

[dependencies]
async-trait = "0.1"
chrono = "0.4"
crossbeam-channel = "0.5"
hyper = { version = "0.14", default-features = false }
serde_json = "1"
sqlx = { version = "0.7", default-features = false, features = ["runtime-tokio", "sqlite", "chrono", "uuid", "json", "migrate"] }
tokio = { version = "1", features = ["rt-multi-thread", "sync"] }
tonic = { version = "0.10", default-features = false, features = ["transport"] }
tracing = "0.1"
ulid = "1"
uuid = { version = "1", features = ["v4"] }
