[package]
name = "llm_policy_engine"
version = "0.1.0"
edition = "2021"
publish = false

[dependencies]
async-trait = "*"
blake3 = "*"
chrono = { version = "*", features = ["serde"] }
clap = { version = "*", features = ["derive", "env"] }
lru = "*"
parking_lot = "*"
regex = "*"
reqwest = { version = "*", default-features = false, features = ["json"] }
serde = { version = "*", features = ["derive"] }
serde_json = "*"
serde_yaml = "*"
thiserror = "*"
tokio = { version = "*", features = ["full"] }
tracing = "*"
tracing-subscriber = "*"
