[package]
name = "easyvietsub"
version = "0.1.0"
edition = "2021"
publish = false

[dependencies]
serde = { version = "1", features = ["derive"] }
serde_json = "1"
base64 = "0.22"
percent-encoding = "2"
memmap2 = "0.9"
which = "*"
zip = { version = "*", default-features = false, features = ["deflate"] }
sevenz-rust = "*"
tokio = { version = "1", features = ["fs", "io-util", "rt", "rt-multi-thread", "macros"] }
reqwest = { version = "0.12", default-features = false, features = ["json", "rustls-tls"] }
