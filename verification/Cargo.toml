[package]
name = "fivebit"
version = "0.1.0"
edition = "2021"
publish = false

[dependencies]
aes = "0.7"
base64-url = "=4.0.1"
fpe = "0.5"
rand = "=0.9.5"
