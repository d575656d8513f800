[package]
name = "image_client"
version = "0.1.0"
edition = "2021"
publish = false

[dependencies]
base64 = "0.22"
chrono = "0.4"
dirs = "5"
dotenvy = "0.15"
image = { version = "0.25", default-features = false, features = ["bmp", "gif", "jpeg", "png", "webp"] }
md5 = "0.7"
reqwest = { version = "0.12", default-features = false, features = ["json", "multipart"] }
rusqlite = { version = "0.32", features = ["backup", "bundled"] }
serde = { version = "1", features = ["derive"] }
serde_json = "1"
sha2 = "0.10"
tokio = { version = "1", features = ["rt", "time", "sync", "macros"] }
uuid = { version = "1", features = ["v4"] }
