[package]
name = "safe_helpers"
version = "0.1.0"
edition = "2021"
publish = false

[dependencies]
bincode = "1"
chrono = "0.4"
safe-nd = "0.3.2"
threshold_crypto = "0.3.2"
url = "*"
