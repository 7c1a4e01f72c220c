[package]
name = "g22_study_bot"
version = "0.1.0"
edition = "2021"
publish = false

[dependencies]
anyhow = "1"
bincode = "1.3"
chrono = "0.4"
dotenv = "*"
etcetera = "*"
serenity = "0.10"
tokio = { version = "1", features = ["macros", "rt-multi-thread", "fs", "sync"] }
