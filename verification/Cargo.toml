[package]
name = "tourist_core"
version = "0.1.0"
edition = "2021"
publish = false

[dependencies]
rusqlite = { version = "*", features = ["bundled"] }
chrono = "*"
tokio = { version = "*", features = ["rt-multi-thread", "macros", "sync", "time"] }
reqwest = { version = "*", default-features = false, features = ["json"] }
serde = { version = "*", features = ["derive"] }
