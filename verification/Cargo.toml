[package]
name = "yak_irc"
version = "0.1.0"
edition = "2021"
publish = false

[dependencies]
mio = "0.6"
uuid = { version = "*", features = ["v4"] }
rustls = "*"
parking_lot = "*"
pircolate = "*"
