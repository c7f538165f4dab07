[package]
name = "vwatch"
version = "0.1.0"
edition = "2021"
publish = false

[dependencies]
anyhow = "1"
async-ssh2-tokio = "0.6"
chrono = { version = "0.4", default-features = false, features = ["clock"] }
directories = "6"
eframe = { version = "0.32", default-features = false, features = ["glow", "x11"] }
egui = { version = "0.32", default-features = false, features = ["default_fonts"] }
egui_plot = { version = "0.33", default-features = false }
serde = { version = "1", features = ["derive"] }
serde_json = "1"
tokio = { version = "1", features = ["rt", "time", "sync", "macros"] }
toml = "0.5"
