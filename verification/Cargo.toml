[package]
name = "titlefetch"
version = "0.1.0"
edition = "2021"
publish = false

[dependencies]
hex = "0.4"
reqwest = { version = "0.12", default-features = false, features = ["blocking", "rustls-tls"] }
