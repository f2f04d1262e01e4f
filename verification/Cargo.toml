[package]
name = "bevy_dojo"
version = "0.1.0"
edition = "2021"
publish = false

[dependencies]
bevy = { version = "0.16", default-features = false, features = ["bevy_log"] }
starknet = "=0.17.0"
tokio = { version = "=1.54.1", features = ["rt-multi-thread", "sync", "time"] }
