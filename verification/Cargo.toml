[package]
name = "dlsite_downloader"
version = "0.1.0"
edition = "2021"
publish = false

[dependencies]
anyhow = "=1.0.104"
futures = "=0.3.34"
reqwest = { version = "=0.13.5", default-features = false, features = ["cookies"] }
rusqlite = { version = "=0.40.2", features = ["bundled"] }
tokio = { version = "=1.53.2", features = ["fs", "io-util", "macros", "rt-multi-thread", "time"] }
