[package]
name = "navnews"
version = "0.1.0"
edition = "2021"
publish = false

[dependencies]
html_editor = "*"
reqwest = { version = "0.11", default-features = false }
tokio = { version = "1", features = ["macros", "rt-multi-thread"] }
sqlite = "*"
serde = { version = "1", features = ["derive"] }
serde_json = "1"
log = "0.4"
env_logger = "0.10"
