[package]
name = "dlog_proof"
version = "0.1.0"
edition = "2021"
publish = false

[dependencies]
elliptic-curve = { version = "0.13", features = ["arithmetic", "sec1"] }
hex = "0.4"
k256 = { version = "0.13", default-features = false, features = ["arithmetic"] }
rand_core = { version = "0.6", features = ["getrandom"] }
serde = { version = "1", features = ["derive"] }
serde_json = "1"
sha2 = "0.10"
