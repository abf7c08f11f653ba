[package]
name = "panorama"
version = "0.1.0"
edition = "2021"
publish = false

[dependencies]
actix-web = "3"
anyhow = "1"
clap = "3"
crdts = "*"
futures = "0.3"
gossip = "*"
pnet = "*"
rand = "0.8"
rust-crypto = "0.2"
serde = { version = "1", features = ["derive"] }
serde_json = "1"
thiserror = "1"
tracing = "0.1"
tracing-subscriber = "0.3"
