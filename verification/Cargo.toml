[package]
name = "dingo_test_runner"
version = "0.2.0"
edition = "2021"
publish = false

[dependencies]
evalexpr = "11"
regex = "1"
anyhow = "1"
clap = { version = "4", features = ["derive"] }
chrono = "0.4"
log = "0.4"
env_logger = "0.11"
mysql = "*"
rayon = "1"
walkdir = "2"
serde = { version = "1", features = ["derive"] }
serde_json = "1"
uuid = { version = "1", features = ["v4"] }
console = "0.15"
lettre = "0.11"
askama = "0.12"
once_cell = "1"
crossbeam-queue = "0.3"
parking_lot = "0.12"
