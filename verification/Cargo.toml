[package]
name = "vibeterm"
version = "0.1.0"
edition = "2021"
publish = false

[dependencies]
anyhow = "1"
dirs = "6"
eframe = { version = "0.31", default-features = false, features = ["default_fonts", "glow", "x11"] }
egui = "0.31"
egui_term = "0.1"
env_logger = { version = "0.11", default-features = false }
fuzzy-matcher = "0.3"
image = { version = "0.25", default-features = false, features = ["png"] }
libc = "0.2"
libproc = "0.14"
log = "0.4"
notify = "8"
serde = { version = "1", features = ["derive"] }
tokio = { version = "1", features = ["rt-multi-thread", "sync"] }
toml = "0.8"
