[package]
name = "animus-protocol"
version = "0.1.0"
edition = "2021"
publish = false

[dependencies]
anyhow = "=1.0.104"
async-trait = "=0.1.92"
chrono = { version = "=0.4.45", features = ["serde"] }
futures-core = "=0.3.34"
schemars = { version = "=1.2.3", features = ["chrono04"] }
serde = { version = "=1.0.229", features = ["derive"] }
serde_json = "=1.0.154"
serde_yaml = "=0.9.34"
tokio = { version = "=1.54.1", features = ["io-util", "net", "rt", "sync"] }
