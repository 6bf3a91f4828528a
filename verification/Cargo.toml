[package]
name = "calendar_rs"
version = "0.1.0"
edition = "2021"
publish = false

[dependencies]
chrono = "0.4"
serde = { version = "1", features = ["derive"] }
serde_json = "1"
directories = "*"
rand = "*"
reqwest = { version = "0.12", default-features = false, features = ["json", "rustls-tls"] }
tokio = { version = "1", default-features = false, features = ["rt-multi-thread"] }
eframe = { version = "*", default-features = false, features = ["glow", "x11", "default_fonts"] }
egui = { version = "*", default-features = false, features = ["default_fonts"] }
egui_extras = { version = "*", default-features = false }
env_logger = { version = "*", default-features = false }
image = { version = "*", default-features = false, features = ["png"] }
