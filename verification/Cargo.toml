[package]
name = "music_catalog"
version = "0.1.0"
edition = "2021"
publish = false

[dependencies]
hex = "=0.4.3"
url = "=2.5.8"
serde = { version = "=1.0.229", features = ["derive"] }
serde_json = { version = "=1.0.154", features = ["preserve_order"] }
walkdir = "=2.5.0"
id3 = "=1.17.2"
dotenv = "=0.15.0"
chill = "*"
iron = "*"
mount = "*"
dbox = "*"
machine-id = "*"
