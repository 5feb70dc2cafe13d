[package]
name = "llm_term"
version = "1.0.0"
edition = "2021"
publish = false

[dependencies]
chrono = { version = "0.4", features = ["serde"] }
clap = "4"
colored = "2"
dirs = "5"
eframe = { version = "*", default-features = false, features = ["glow", "x11", "default_fonts"] }
egui = { version = "*", default-features = false }
openai_api_rust = "0.1"
serde = { version = "1", features = ["derive"] }
serde_json = "1"
uuid = { version = "1", features = ["v4"] }
