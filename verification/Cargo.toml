[package]
name = "bevygap"
version = "0.1.0"
edition = "2021"
publish = false

[dependencies]
async-nats = { version = "=0.42.0", features = ["service"] }
base64 = "=0.22.1"
clap = { version = "=4.6.7", features = ["derive"] }
futures = "=0.3.34"
lightyear_netcode = { version = "=0.25.5", default-features = false, features = ["std"] }
log = "=0.4.35"
rand = "=0.9.5"
regex = "=1.13.1"
serde = { version = "=1.0.229", features = ["derive"] }
serde_json = "=1.0.154"
tokio = { version = "=1.54.1", features = ["macros", "rt-multi-thread", "sync", "time"] }
tracing-subscriber = { version = "=0.3.23", features = ["env-filter"] }
