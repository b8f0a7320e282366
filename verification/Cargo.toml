[package]
name = "uiplay"
version = "0.1.0"
edition = "2021"
publish = false

[dependencies]
base64 = "0.22"
regex = "1"
serde = { version = "1", features = ["derive"] }
serde_json = "1"
libc = "0.2"
log = "0.4"
discord-rich-presence = "1"
reqwest = { version = "0.12", default-features = false }
zbus = "5"
