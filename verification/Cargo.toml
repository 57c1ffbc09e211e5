[package]
name = "airprinter"
version = "0.1.0"
edition = "2021"
publish = false

[dependencies]
mdns-sd = "*"
uuid = { version = "*", features = ["v4"] }
chrono = "*"
local-ip-address = "*"
serde = { version = "*", features = ["derive"] }
serde_json = "*"
tiny_http = "*"
