[package]
name = "daedalus"
version = "0.1.0"
edition = "2021"
publish = false

[dependencies]
serde = { version = "1", features = ["derive"] }
serde_json = "1"
zip = { version = "*", default-features = false, features = ["deflate"] }
which = "*"
reqwest = { version = "0.12", default-features = false, features = ["blocking", "rustls-tls"] }
