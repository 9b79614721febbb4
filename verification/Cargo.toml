[package]
name = "grandpa_communication"
version = "0.1.0"
edition = "2021"
publish = false

[dependencies]
finality-grandpa = { version = "0.10", features = ["derive-codec"] }
parity-scale-codec = { version = "1", features = ["derive"] }
sp-core = { version = "*", default-features = false, features = ["full_crypto"] }
futures = "0.1"
log = "0.4"
