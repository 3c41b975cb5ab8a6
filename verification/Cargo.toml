[package]
name = "magic_scanner"
version = "0.2.0"
edition = "2021"
publish = false

[dependencies]
cidr-utils = "0.5"
clap = { version = "4", features = ["derive"] }
colored = "2"
colorful = "0.2"
futures = "0.3"
ipnet = "2"
pnet = "0.34"
rand = "0.8"
regex = "1"
serde = { version = "1", features = ["derive"] }
serde_json = "1"
socket2 = "0.5"
tokio = { version = "1", features = ["full"] }
tracing = "0.1"
tracing-appender = "0.2"
tracing-subscriber = { version = "0.3", features = ["env-filter"] }
trust-dns-resolver = "0.22"
