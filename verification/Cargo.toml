[package]
name = "loco_lh_alignment"
version = "0.1.0"
edition = "2021"
publish = false

[dependencies]
anyhow = "1"
crazyflie-lib = "*"
crazyflie-link = "*"
dirs-next = "2"
rfd = { version = "0.15", default-features = false, features = ["xdg-portal", "tokio"] }
serde = { version = "1", features = ["derive"] }
serde_yaml = "0.9"
slint = { version = "1", default-features = false, features = ["compat-1-2", "std"] }
tokio = { version = "1", features = ["rt-multi-thread", "sync", "time", "macros"] }
