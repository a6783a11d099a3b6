[package]
name = "triage_tracker"
version = "0.1.0"
edition = "2021"
publish = false

[dependencies]
chrono = { version = "0.4", features = ["serde"] }
env_logger = "0.9"
log = "0.4"
reqwest = { version = "0.11", features = ["json"] }
serde = { version = "1", features = ["derive"] }
serde_json = "1"
structopt = "0.3"
termion = "1.5"
tokio = { version = "1", features = ["full"] }
tui = { version = "0.19", default-features = false, features = ["termion"] }
