[package]
name = "team_editor"
version = "0.1.0"
edition = "2021"
publish = false

[dependencies]
egui = { version = "0.26", default-features = false }
egui_extras = { version = "0.26", default-features = false }
env_logger = { version = "0.11", default-features = false }
image = { version = "0.24", default-features = false, features = ["png", "jpeg", "bmp"] }
log = "0.4"
native-dialog = "0.7"
rusqlite = { version = "0.31", features = ["bundled"] }
serde = { version = "1", features = ["derive"] }
serde_json = "1"
thiserror = "1"
