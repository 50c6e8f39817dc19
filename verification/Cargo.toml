[package]
name = "logweb"
version = "0.1.0"
edition = "2021"
publish = false

[dependencies]
regex = "1"
clap = { version = "4", features = ["derive"] }
color-eyre = "0.6"
tokio = { version = "1", features = ["full"] }
axum = "0.8"
serde = { version = "1", features = ["derive"] }
serde_json = "1"
rusqlite = { version = "*", features = ["bundled"] }
rustc-hash = "2"
async-compression = { version = "0.4", features = ["tokio", "zstd"] }
zstd = "0.13"
parking_lot = "0.12"
crossbeam = "0.8"
libc = "0.2"
libsystemd-sys = "0.9"
