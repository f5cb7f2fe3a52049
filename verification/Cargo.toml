[package]
name = "rigloop"
version = "0.3.0"
edition = "2021"
publish = false

[dependencies]
anyhow = "=1.0.104"
futures = "=0.3.34"
rig = { version = "=0.42.0", default-features = false, features = ["agent", "test-utils"] }
rig-memory = { version = "=0.42.0", default-features = false }
serde = { version = "=1.0.229", features = ["derive"] }
serde_json = { version = "=1.0.154", features = ["raw_value"] }
thiserror = "=2.0.21"
tokio = { version = "=1.54.1", features = ["macros", "rt-multi-thread", "sync", "time"] }
uuid = { version = "=1.29.0", features = ["v4", "serde"] }
