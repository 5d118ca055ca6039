[package]
name = "audion"
version = "0.1.0"
edition = "2021"
publish = false

[dependencies]
base64 = "*"
crossbeam = "*"
rodio = "*"
serde = { version = "*", features = ["derive"] }
serde_json = "*"
discord-rich-presence = "*"
lofty = "*"
metaflac = "*"
