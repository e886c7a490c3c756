[package]
name = "lab_logger"
version = "0.1.0"
edition = "2021"
publish = false

[dependencies]
chrono = "0.4"
chrono-tz = "*"
regex = "1"
serde = { version = "1", features = ["derive"] }
serde_json = "1"
dialoguer = "*"
crossterm = "*"
ctrlc = "*"
open = "*"
rpassword = "*"
rusqlite = "*"
