[package]
name = "probe-rs-debugadapter"
version = "0.1.0"
edition = "2021"
publish = false

[dependencies]
anyhow = "1"
clap = "2"
debugserver-types = "0.5"
log = "0.4"
probe-rs = "0.8"
serde = { version = "1", features = ["derive"] }
serde_json = "1"
simplelog = "0.8"
thiserror = "1"
