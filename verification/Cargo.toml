[package]
name = "super_gunzip"
version = "0.1.0"
edition = "2021"
publish = false

[dependencies]
async-compression = { version = "0.4", features = ["tokio", "gzip"] }
clap = { version = "4", features = ["derive"] }
glob = "0.3"
tokio = { version = "1", features = ["fs", "io-util", "macros", "rt", "rt-multi-thread", "sync"] }
