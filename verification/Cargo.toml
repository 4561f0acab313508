[package]
name = "netpulse"
version = "0.1.0"
edition = "2021"
publish = false

[dependencies]
bincode = "1"
zstd = "0.13"
humantime = "2"
getopts = "0.2"
daemonize = "0.5"
nix = { version = "0.29", features = ["signal", "user"] }
