[package]
name = "poloniex_bot"
version = "0.1.0"
edition = "2021"
publish = false

[dependencies]
serde_json = "1"
serde = { version = "1", features = ["derive"] }
chrono = "0.4"
tungstenite = "0.20"
url = "2"
diesel = { version = "2", features = ["postgres", "chrono"] }
dotenv = "0.15"
env_logger = "0.10"
reqwest = { version = "0.11", default-features = false, features = ["blocking", "json"] }
