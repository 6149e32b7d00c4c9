[package]
name = "terminal_company"
version = "0.1.0"
edition = "2021"
publish = false

[dependencies]
rand = "0.9"
serde = { version = "1", features = ["derive"] }
tokio = { version = "1", features = ["macros", "rt-multi-thread"] }
mongodb = "3"
crossterm = "*"
ratatui = "*"
dotenv = "0.15"
env_logger = "*"
log = "0.4"
lazy_static = "1"
