[package]
name = "monitor"
version = "0.1.0"
edition = "2021"
publish = false

[dependencies]
chrono = "0.4"
clap = { version = "4", features = ["derive"] }
csv = "1"
env_logger = "0.10"
log = "0.4"
ryu = "1"
sysinfo = "0.29"
