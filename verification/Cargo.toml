[package]
name = "glow"
version = "0.1.0"
edition = "2021"
publish = false

[dependencies]
bytes = "1"
rand = "0.8"
thiserror = "1"
clap = "2"
nix = "0.26"
neli = "0.5"
rtnetlink = "0.8"
futures = "0.3"
tokio = { version = "1", features = ["rt-multi-thread", "macros"] }
