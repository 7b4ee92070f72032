[package]
name = "rlogg"
version = "0.1.0"
edition = "2021"
publish = false

[dependencies]
eframe = { version = "0.31", default-features = false, features = ["default_fonts", "glow", "x11"] }
egui = "0.31"
encoding_rs = "0.8"
large-text-core = "*"
regex = "1"
rfd = { version = "0.15", default-features = false, features = ["xdg-portal", "async-std"] }

[dev-dependencies]
tempfile = "3"
