[package]
name = "serial_plotter"
version = "0.1.0"
edition = "2021"
publish = false

[dependencies]
serde = { version = "1", features = ["derive"] }
serde_json = "1"
serialport = { version = "4", default-features = false }
egui_plot = { version = "=0.27.2", default-features = false }
