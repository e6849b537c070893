[package]
name = "render_engine"
version = "0.1.0"
edition = "2021"
publish = false

[dependencies]
hashbrown = { version = "*", features = ["serde"] }
serde = { version = "1", features = ["derive"] }
bincode = "1"
lazy_static = "1"
