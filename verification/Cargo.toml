[package]
name = "discord_rich_presence"
version = "0.1.0"
edition = "2021"
publish = false

[dependencies]
serde_json = "1"
uuid = { version = "1", features = ["v4"] }
serde = { version = "1", features = ["derive"] }
toml = "*"
config = { version = "*", default-features = false, features = ["toml"] }
log = "0.4"
env_logger = "*"
ctrlc = "3"
chrono = "0.4"
tokio = { version = "1", features = ["rt-multi-thread", "macros"] }
thiserror = "1"
