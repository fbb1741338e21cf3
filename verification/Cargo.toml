[package]
name = "mcp_framework"
version = "0.1.0"
edition = "2021"
publish = false

[dependencies]
uuid = { version = "1", features = ["v4"] }
chrono = "0.4"
serde_json = "1"
reqwest = { version = "0.12", default-features = false, features = ["blocking", "json"] }
dotenv = "0.15"
env_logger = "0.11"
log = "0.4"
