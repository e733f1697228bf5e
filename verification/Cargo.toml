[package]
name = "index_engine"
version = "0.1.0"
edition = "2021"
publish = false

[dependencies]
actix-rt = "=2.15.0"
actix-web = { version = "=4.18.1", default-features = false, features = ["macros"] }
clap = { version = "=4.6.7", features = ["derive"] }
env_logger = "=0.11.11"
faiss = "=0.13.0"
log = "=0.4.34"
nolock = { version = "=0.4.1", features = ["async"] }
tokio = { version = "=1.54.1", features = ["sync", "rt", "time"] }
