[package]
name = "ghgrab_gui"
version = "0.1.0"
edition = "2021"
publish = false

[dependencies]
dirs = "*"
eframe = { version = "0.37", default-features = false, features = ["default_fonts", "glow", "x11"] }
rfd = "*"
serde = { version = "1", features = ["derive"] }
tokio = { version = "1", features = ["rt-multi-thread"] }
