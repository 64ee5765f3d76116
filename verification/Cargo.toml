[package]
name = "pwn"
version = "0.1.0"
edition = "2021"
publish = false

[dependencies]
aes-gcm = "0.10"
pbkdf2 = "0.12"
sha2 = "0.10"
rand = "0.8"
zeroize = "1"
serde_json = "1"
clap = { version = "4", features = ["derive"] }
rpassword = "7"
whoami = "1"
