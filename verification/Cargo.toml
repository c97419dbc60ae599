[package]
name = "midah"
version = "0.1.0"
edition = "2021"
publish = false

[dependencies]
anyhow = "1"
chrono = { version = "0.4", features = ["serde"] }
cpal = "0.15"
dirs = "5"
once_cell = "1"
regex = "1"
reqwest = { version = "0.12", default-features = false, features = ["json"] }
rodio = { version = "0.19", default-features = false }
rusqlite = "0.31"
serde = { version = "1", features = ["derive"] }
serde_json = "1"
symphonia = { version = "0.5", features = ["all"] }
tar = "0.4"
tempfile = "3"
tokio = { version = "1", features = ["fs", "process", "rt", "sync", "time"] }
tracing = "0.1"
tracing-subscriber = { version = "0.3", features = ["env-filter"] }
uuid = { version = "1", features = ["v4"] }
xz2 = "0.1"
zip = { version = "0.6", default-features = false, features = ["deflate"] }
