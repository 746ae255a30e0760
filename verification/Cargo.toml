[package]
name = "nalufx"
version = "0.1.0"
edition = "2021"
publish = false

[dependencies]
actix-web = { version = "=4.18.1", default-features = false, features = ["macros"] }
augurs-ets = "=0.1.2"
chrono = "=0.4.45"
dotenvy = "=0.15.7"
env_logger = "=0.11.11"
figlet-rs = "=0.1.5"
linfa = "=0.7.1"
linfa-clustering = "=0.7.1"
log = "=0.4.34"
ndarray = "=0.15.6"
rand = "=0.8.8"
reqwest = { version = "=0.12.28", default-features = false, features = ["json"] }
serde = { version = "=1.0.229", features = ["derive"] }
serde_json = "=1.0.154"
thiserror = "=1.0.69"
