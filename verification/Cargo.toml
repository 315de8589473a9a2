[package]
name = "rmux"
version = "0.1.0"
edition = "2021"
publish = false

[dependencies]
anyhow = "1"
dirs = "6"
eframe = { version = "0.33", default-features = false, features = ["default_fonts", "glow", "x11"] }
egui_dock = { version = "0.18", default-features = false }
futures-util = "0.3"
glob = "0.3"
reqwest = { version = "0.12", default-features = false, features = ["json", "stream", "rustls-tls"] }
rmcp = { version = "*", features = ["client", "transport-child-process"] }
serde = { version = "1", features = ["derive"] }
serde_json = "1"
serde_yaml = "0.9"
tokio = { version = "1", features = ["rt-multi-thread", "macros", "sync", "fs", "process"] }
uuid = { version = "1", features = ["v4", "serde"] }
