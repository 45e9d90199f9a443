[package]
name = "aegis_host"
version = "0.1.0"
edition = "2021"
publish = false

[dependencies]
serde_json = "1"
fs2 = "0.4"
winreg = "*"
