[package]
name = "unstaking"
version = "0.1.0"
edition = "2021"
publish = false

[dependencies]
bitcoin = "=0.32.102"
electrum-client = { version = "=0.21.0", default-features = false, features = ["proxy", "use-rustls-ring"] }
futures = "=0.3.34"
rust-mempool = "=0.0.5"
tokio = { version = "=1.54.1", features = ["rt-multi-thread", "macros"] }
