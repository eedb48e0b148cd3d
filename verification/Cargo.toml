[package]
name = "tahoe_backup"
version = "0.1.0"
edition = "2021"
publish = false

[dependencies]
seahash = "4"
globset = "0.4"
serde_json = "1"
chrono = "0.4"
hyper = { version = "0.14", features = ["client", "http1", "tcp", "stream"] }
tokio = { version = "1", features = ["rt", "rt-multi-thread", "sync"] }
futures = "0.3"
threadpool = "1"
clap = "4"
diesel = { version = "2", features = ["sqlite"] }
env_logger = "0.11"
log = "0.4"
indicatif = "0.17"
filetime = "0.2"
