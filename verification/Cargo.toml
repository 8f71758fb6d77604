[package]
name = "backend"
version = "0.1.0"
edition = "2021"
publish = false

[dependencies]
uuid = { version = "=0.8.2", features = ["v4"] }
rusqlite = { version = "=0.24.2", features = ["bundled", "uuid"] }
r2d2 = "=0.8.10"
juniper = "=0.15.12"
juniper_warp = "=0.6.5"
warp = "0.3"
tokio = { version = "1", features = ["macros", "rt-multi-thread"] }
anyhow = "=1.0.104"
