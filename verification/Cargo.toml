[package]
name = "staged_sync"
version = "0.1.0"
edition = "2021"
publish = false

[dependencies]
alloy-primitives = { version = "*", features = ["serde"] }
async-trait = "0.1"
bytes = "1"
ethers-core = "2"
rayon = "1"
serde = { version = "1", features = ["derive"] }
syn = "2"
thiserror = "1"
tokio = { version = "1", default-features = false, features = ["sync"] }
tracing = "0.1"
