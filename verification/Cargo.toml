[package]
name = "mafia_server"
version = "0.1.0"
edition = "2021"
publish = false

[dependencies]
rand = "0.8"
mt19937 = "2"
shuffle = "0.1"
tokio = { version = "1", features = ["full"] }
async-trait = "0.1"
lazy_static = "1"
