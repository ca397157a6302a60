[package]
name = "aoe_archive"
version = "0.1.0"
edition = "2021"
publish = false

[dependencies]
aes-gcm = "0.10"
anyhow = "1"
dirs = "*"
flate2 = "1"
fs2 = "0.4"
fs_extra = "1"
parking_lot = "0.12"
reqwest = { version = "0.12", default-features = false, features = ["blocking", "rustls-tls"] }
rust-ini = "0.21"
serde = { version = "1", features = ["derive"] }
serde_json = "1"
sevenz-rust2 = "*"
tar = "0.4"
toml = "*"
tracing = "0.1"
tracing-subscriber = "0.3"
winreg = "*"
zip = { version = "2", default-features = false, features = ["deflate"] }
