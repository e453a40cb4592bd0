[package]
name = "boilr"
version = "0.1.0"
edition = "2021"
publish = false

[dependencies]
serde_json = "1"
eyre = "0.6"
futures = "0.3"
tokio = { version = "1", features = ["rt-multi-thread", "sync"] }
eframe = { version = "0.29", default-features = false, features = ["glow", "default_fonts", "x11"] }
egui = { version = "0.29", default-features = false }
egui_extras = { version = "0.29", default-features = false }
rfd = "0.15"
