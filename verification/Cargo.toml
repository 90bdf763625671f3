[package]
name = "subscript"
version = "0.1.0"
edition = "2021"
publish = false

[dependencies]
anyhow = "*"
async-imap = { version = "*", default-features = false, features = ["runtime-tokio"] }
base64 = "*"
chrono = "*"
dirs = "*"
futures = "*"
mailparse = "*"
native-tls = "*"
reqwest = { version = "*", features = ["json"] }
rusqlite = { version = "*", features = ["bundled"] }
serde = { version = "*", features = ["derive"] }
serde_json = "*"
tempfile = "*"
tokio = { version = "*", features = ["net", "rt", "macros"] }
tokio-native-tls = "*"
