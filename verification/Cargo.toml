[package]
name = "agent_coord"
version = "0.1.0"
edition = "2021"
publish = false

[dependencies]
failure = "0.1"
http = "0.2"
hyper = "0.14"
warp = "0.3"
serde = { version = "1", features = ["derive"] }
serde_json = "1"
