[package]
name = "patu"
version = "0.1.0"
edition = "2021"
publish = false

[dependencies]
rand = "0.8"
serde = { version = "1", features = ["derive"] }
serde_json = "1"
nix = { version = "0.26", features = ["sched", "fs", "net"] }
netlink-sys = "0.8"
iptables = "0.5"
clap = { version = "4", features = ["derive"] }
