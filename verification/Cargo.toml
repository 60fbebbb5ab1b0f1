[package]
name = "xk-rust"
version = "0.1.0"
edition = "2021"
publish = false

[dependencies]
aes = "=0.8.4"
cipher = { version = "=0.4.4", features = ["alloc", "block-padding"] }
ecb = { version = "=0.1.2", features = ["alloc", "block-padding"] }
base64 = "=0.22.1"
regex = "=1.13.1"
reqwest = { version = "=0.12.28", default-features = false, features = ["blocking", "cookies", "json", "rustls-tls"] }
serde = { version = "=1.0.229", features = ["derive"] }
serde_json = "=1.0.154"
chrono = "=0.4.45"
crossbeam-channel = "=0.5.17"
eframe = { version = "0.37", default-features = false, features = ["glow", "x11", "default_fonts"] }
egui_extras = { version = "0.37", default-features = false }
