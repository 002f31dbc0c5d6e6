[package]
name = "velocity_downloader"
version = "0.1.0"
edition = "2021"
publish = false

[dependencies]
url = "2"
uuid = { version = "1", features = ["v4"] }
dirs = "5"
serde = { version = "1", features = ["derive"] }
serde_json = "1"
tokio = { version = "1", features = ["full"] }
reqwest = { version = "0.12", default-features = false, features = ["stream", "cookies"] }
futures-util = "0.3"
chrono = { version = "0.4", features = ["serde"] }
log = "0.4"
urlencoding = "2"
sha2 = "0.10"
