[package]
name = "julia_render"
version = "0.1.0"
edition = "2021"
publish = false

[dependencies]
image = { version = "*", default-features = false, features = ["png"] }
rayon = "*"
eframe = { version = "0.22", default-features = false, features = ["default_fonts", "glow"] }
native-dialog = "*"
rand = "*"
serde = { version = "*", features = ["derive"] }
serde_json = "*"
