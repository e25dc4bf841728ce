[package]
name = "ig_library"
version = "0.1.0"
edition = "2021"
publish = false

[dependencies]
dirs = "=7.0.0"
eframe = { version = "=0.36.2", default-features = false, features = ["glow", "default_fonts", "x11"] }
egui = "=0.36.2"
egui_dock = "=0.21.1"
egui_extras = "=0.36.2"
egui_ltreeview = "=0.9.0"
image = { version = "=0.25.10", default-features = false, features = ["png"] }
log = "=0.4.34"
serde = { version = "=1.0.229", features = ["derive"] }
sonic-rs = "=0.5.10"
walkdir = "=2.5.0"
