[package]
name = "spacetrack_gateway"
version = "0.1.0"
edition = "2021"
publish = false

[dependencies]
sublime_fuzzy = "=0.7.0"
reqwest = { version = "=0.13.5", features = ["cookies", "json", "form"] }
serde = { version = "=1.0.229", features = ["derive"] }
serde_json = "=1.0.154"
tokio = { version = "=1.54.1", features = ["macros", "rt-multi-thread", "sync"] }
poem = "=3.1.12"
