[package]
name = "mcad_app"
version = "0.1.0"
edition = "2021"
publish = false

[dependencies]
anyhow = "1"
dirs = "*"
eframe = { version = "0.35", default-features = false, features = ["default_fonts", "glow", "x11"] }
egui = "0.35"
rfd = "*"
serde = { version = "1", features = ["derive"] }
serde_json = "1"
