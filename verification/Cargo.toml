[package]
name = "vn_engine"
version = "0.1.0"
edition = "2021"
publish = false

[dependencies]
lazy_static = "=1.5.1"
serde = { version = "=1.0.229", features = ["derive"] }
slint = { version = "1", default-features = false, features = ["std", "compat-1-2"] }
tokio = { version = "=1.54.1", features = ["rt", "rt-multi-thread", "macros", "sync", "time"] }
toml = "=0.8.23"
