[package]
name = "hypr_xp_magnifier"
version = "0.1.0"
edition = "2021"
publish = false

[dependencies]
serde = { version = "=1.0.229", features = ["derive"] }
serde_json = "=1.0.154"
smithay-client-toolkit = "=0.21.1"
wayland-client = "=0.31.15"
wayland-protocols-wlr = { version = "=0.3.12", features = ["client"] }
env_logger = "=0.11.11"
atspi = "=0.30.0"
atspi-proxies = "=0.14.0"
futures-lite = "=2.6.1"
tokio = { version = "=1.54.1", features = ["rt", "macros"] }
eframe = { version = "*", default-features = false, features = ["default_fonts", "glow", "wayland"] }
