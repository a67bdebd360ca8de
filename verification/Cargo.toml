[package]
name = "fast_package_manager"
version = "0.1.0"
edition = "2021"
publish = false

[dependencies]
indexmap = { version = "=2.14.2", features = ["serde"] }
node-semver = "=2.2.0"
anyhow = "=1.0.104"
async-compression = { version = "=0.4.51", features = ["tokio", "gzip"] }
futures = "=0.3.34"
reqwest = { version = "=0.11.27", default-features = false, features = ["stream", "rustls-tls"] }
serde = { version = "=1.0.229", features = ["derive"] }
serde_json = "=1.0.154"
tar = "=0.4.46"
thiserror = "=1.0.69"
tokio = { version = "=1.54.1", features = ["rt-multi-thread", "macros", "fs", "io-util"] }
tokio-util = { version = "=0.7.20", features = ["compat", "io", "io-util"] }
