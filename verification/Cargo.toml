[package]
name = "tgm4_replay"
version = "0.1.0"
edition = "2021"
publish = false

[dependencies]
chrono = { version = "0.4", default-features = false, features = ["clock", "std"] }
csv = "1"
eframe = { version = "0.31", default-features = false, features = ["default_fonts", "glow", "x11"] }
egui = "0.31"
egui_extras = "0.31"
glob = "0.3"
serde = { version = "1", features = ["derive"] }
ureq = { version = "3", default-features = false, features = ["json"] }
