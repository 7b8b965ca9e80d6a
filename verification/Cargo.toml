[package]
name = "stereograph"
version = "0.1.0"
edition = "2021"
publish = false

[dependencies]
image = { version = "=0.25.10", default-features = false, features = ["png", "jpeg", "bmp", "gif", "webp"] }
nalgebra = "=0.33.3"
rayon = "=1.12.0"
egui = "=0.31.1"
egui_extras = "=0.31.1"
eframe = { version = "=0.31.1", default-features = false, features = ["glow", "default_fonts", "x11"] }
rfd = { version = "=0.17.2", default-features = false, features = ["xdg-portal"] }
