[package]
name = "digital_wellbeing"
version = "0.1.0"
edition = "2021"
publish = false

[dependencies]
chrono = "0.4"
rand = "0.8"
sysinfo = "0.30"
winapi = { version = "0.3", features = ["winuser"] }
