[package]
name = "ollama_studio"
version = "0.1.0"
edition = "2021"
publish = false

[dependencies]
base64 = "0.22"
serde = { version = "1", features = ["derive"] }
serde_json = "1"
directories = "6"
reqwest = { version = "0.12", default-features = false, features = ["blocking", "json"] }
eframe = { version = "0.29", default-features = false, features = ["default_fonts", "glow", "x11"] }
egui_commonmark = { version = "0.18", default-features = false, features = ["pulldown_cmark"] }
rfd = { version = "0.15", default-features = false, features = ["xdg-portal", "tokio"] }
