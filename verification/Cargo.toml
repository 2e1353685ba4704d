[package]
name = "mentat"
version = "0.1.0"
edition = "2021"
publish = false

[dependencies]
chrono = { version = "=0.4.45", default-features = false, features = ["std"] }
clap = "=4.6.7"
rusqlite = "=0.41.0"
tabwriter = "*"
termion = "*"
uuid = "=1.29.0"
