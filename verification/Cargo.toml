[package]
name = "diary"
version = "0.1.0"
edition = "2021"
publish = false

[dependencies]
time = { version = "0.3", features = ["formatting", "parsing", "local-offset", "serde"] }
serde = { version = "1", features = ["derive"] }
serde_json = "1"
eframe = { version = "*", default-features = false, features = ["glow", "default_fonts", "x11", "persistence"] }
egui_plot = "*"
ecolor = "*"
ratatui = { version = "*", features = ["widget-calendar"] }
