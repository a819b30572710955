[package]
name = "radar_ip"
version = "0.2.0"
edition = "2021"
publish = false

[dependencies]
ipnet = "2"
regex = "1"
tokio = { version = "1", features = ["rt-multi-thread", "macros", "sync", "time"] }
ssh2 = "0.9"
tempfile = "3"
clap = { version = "4", features = ["derive"] }
thiserror = "1"
log = "0.4"
env_logger = "0.11"
eframe = { version = "0.29", default-features = false, features = ["glow", "default_fonts", "x11"] }
