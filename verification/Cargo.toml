[package]
name = "storage_forecast"
version = "0.1.0"
edition = "2021"
publish = false

[dependencies]
chrono = "*"
clap = { version = "*", features = ["derive"] }
humansize = "*"
humantime = "*"
left-pad = "*"
linreg = "*"
walkdir = "*"
