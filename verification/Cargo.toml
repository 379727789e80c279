[package]
name = "layerpen"
version = "0.1.0"
edition = "2021"
publish = false

[dependencies]
base64 = "*"
chrono = "*"
fontdb = "*"
gif = "*"
qrcode = { version = "*", default-features = false, features = ["svg"] }
serde = { version = "*", features = ["derive"] }
serde_json = "*"
sha2 = "*"
uuid = { version = "*", features = ["v4"] }
