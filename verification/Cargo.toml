[package]
name = "payment_lane"
version = "0.1.0"
edition = "2021"
publish = false

[dependencies]
alloy-consensus = "1.6.3"
alloy-primitives = { version = "1.5.7", features = ["serde"] }
alloy-rlp = "0.3"
metrics = "0.24"
revm = { version = "34.0.0", default-features = false }
serde = { version = "1.0", features = ["derive"] }
thiserror = "2.0"
tracing = "0.1"
