[package]
name = "verve"
version = "0.1.0"
edition = "2021"
publish = false

[dependencies]
serde = { version = "=1.0.229", features = ["derive"] }
serde_json = { version = "=1.0.154", features = ["preserve_order"] }
sparkid = "=2.2.1"
chrono = "=0.4.45"
uuid = { version = "=1.29.0", features = ["v4"] }
aes-gcm = "=0.10.3"
zmodem2 = "=0.7.3"
regex = "=1.13.1"
anyhow = "=1.0.104"
zeroize = "=1.9.1"
bincode = "=1.3.3"
walkdir = "2"
