[package]
name = "repo_manager"
version = "0.1.0"
edition = "2021"
publish = false

[dependencies]
crossbeam-channel = "=0.5.17"
eframe = { version = "=0.27.2", default-features = false, features = ["glow"] }
egui = { version = "=0.27.2", default-features = false, features = ["default_fonts"] }
gix = { version = "=0.90.0", default-features = false, features = ["sha1"] }
image = { version = "=0.24.9", default-features = false, features = ["png"] }
lazy_static = "=1.5.1"
opener = "=0.9.0"
serde = { version = "=1.0.229", features = ["derive"] }
serde_json = "=1.0.154"
