[package]
name = "bathbot"
version = "0.1.0"
edition = "2021"
publish = false

[dependencies]
rand = "=0.8.8"
rosu-v2 = "=0.8.0"
tokio = { version = "=1.53.2", features = ["rt", "time", "macros", "sync"] }
twilight-model = "=0.17.1"
chrono = "=0.4.45"
