[package]
name = "ochat_core"
version = "0.1.0"
edition = "2021"
publish = false

[dependencies]
aes-gcm = "0.10"
base64 = "0.22"
chrono = "0.4"
hex = "0.4"
rand = "0.8"
rsa = "0.9"
sha2 = "0.10"
uuid = { version = "1", features = ["v4"] }
