[package]
name = "snowboard"
version = "0.1.0"
edition = "2021"
publish = false

[dependencies]
async-native-tls = "0.5"
async-tungstenite = "*"
base64 = "0.22"
sha1 = "0.10"
smol = "2"
smol-potat = "1"
