[package]
name = "rusty_viewer"
version = "0.1.0"
edition = "2021"
publish = false

[dependencies]
image = { version = "0.25", default-features = false, features = ["png", "jpeg", "webp", "bmp", "tiff", "gif", "ico"] }
base64 = "0.22"
dirs = "*"
serde = { version = "1", features = ["derive"] }
tempfile = "3"
