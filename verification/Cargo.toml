[package]
name = "zord_gui"
version = "0.1.0"
edition = "2021"
publish = false

[dependencies]
anyhow = "1"
arboard = { version = "3", default-features = false }
chrono = "0.4"
open = "5"
rodio = { version = "0.22", default-features = false, features = ["playback"] }
serde_json = "1"
tokio = { version = "1", features = ["sync", "rt", "time"] }
tracing = "0.1"
tracing-appender = "0.2"
tracing-subscriber = { version = "0.3", features = ["env-filter"] }
zip = { version = "2", default-features = false, features = ["deflate"] }
