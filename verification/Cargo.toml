[package]
name = "focus"
version = "0.1.0"
edition = "2021"
publish = false

[dependencies]
block2 = "0.6"
objc2 = "0.6"
objc2-app-kit = "0.3"
objc2-foundation = "0.3"
rusqlite = { version = "*", features = ["bundled"] }
serde_json = "1"
