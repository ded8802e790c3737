[package]
name = "ruler-app"
version = "2.2.0"
edition = "2021"
publish = false

[dependencies]
image = { version = "*", default-features = false, features = ["png"] }
log = "0.4"
netstat2 = "*"
reqwest = { version = "0.12", default-features = false, features = ["blocking"] }
semver = "1"
serde = { version = "1", features = ["derive"] }
serde_json = "1"
sysinfo = "*"
tungstenite = "*"
uuid = { version = "1", features = ["v4"] }
