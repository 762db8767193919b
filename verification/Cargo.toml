[package]
name = "pool_state_arena"
version = "0.1.0"
edition = "2021"
publish = false

[dependencies]
alloy-primitives = { version = "*", default-features = false, features = ["std", "serde"] }
bincode = "1"
hex = "0.4"
log = "0.4"
serde = { version = "1", features = ["derive"] }
thiserror = "1"
tokio = { version = "1", features = ["net", "io-util", "time", "sync", "rt"] }
