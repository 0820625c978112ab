[package]
name = "submarine"
version = "0.1.0"
edition = "2021"
publish = false

[dependencies]
serde = { version = "1", features = ["derive"] }
postcard = { version = "1", features = ["alloc"] }
tokio = { version = "1", features = ["macros", "rt-multi-thread", "sync", "time", "net"] }
axum = { version = "0.8", features = ["ws"] }
