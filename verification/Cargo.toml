[package]
name = "zk_poc"
version = "0.1.0"
edition = "2021"
publish = false

[dependencies]
risc0-zkvm = "0.12"
risc0-zkp = "0.12"
bincode = "1.3"
serde = { version = "1", features = ["derive"] }
tokio = { version = "1", features = ["macros", "rt-multi-thread"] }
tonic = "0.8"
prost = "0.11"
log = "0.4"
env_logger = "0.10"
