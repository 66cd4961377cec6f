[package]
name = "scheduler_bot"
version = "0.1.0"
edition = "2021"
publish = false

[dependencies]
percent-encoding = "2.3"
image = { version = "0.24", default-features = false, features = ["png"] }
imageproc = { version = "0.23", default-features = false }
serenity = "0.11"
poise = "0.5"
tokio = { version = "1", features = ["macros", "rt-multi-thread", "time", "sync"] }
tokio-postgres = "0.7"
bb8 = "0.8"
bb8-postgres = "0.8"
chrono = "0.4"
env_logger = "0.10"
lazy_static = "1.4"
