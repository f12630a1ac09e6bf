[package]
name = "lan-speed-test"
version = "0.1.0"
edition = "2021"
publish = false

[dependencies]
anyhow = "1"
clap = { version = "3.2", features = ["derive"] }
hostname = "0.3"
log = "0.4"
mdns-sd = "0.5"
num_cpus = "1"
pnet_datalink = "0.31"
rand = "0.8"
reqwest = { version = "0.11", default-features = false, features = ["stream"] }
rocket = "0.5"
simplelog = "0.12"
tokio = { version = "1", features = ["macros", "rt-multi-thread", "net", "process", "sync", "time"] }
