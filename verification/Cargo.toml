[package]
name = "qubit_json"
version = "0.1.0"
edition = "2021"
publish = false

[dependencies]
qubit-budget = { version = "=0.5.0", features = ["json"] }
serde = { version = "=1.0.229", features = ["derive"] }
serde_json = { version = "=1.0.154", features = ["raw_value"] }
thiserror = "=2.0.21"
