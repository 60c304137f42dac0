[package]
name = "rorex"
version = "0.1.0"
edition = "2021"
publish = false

[dependencies]
chrono = "=0.4.45"
reqwest = { version = "=0.12.28", default-features = false, features = ["blocking"] }
egui = { version = "=0.29.1", default-features = false }
egui_plot = "=0.29.0"
