[package]
name = "cyders"
version = "0.1.0"
edition = "2021"
publish = false

[dependencies]
memmap2 = "0.9"
anyhow = "1"
serde = { version = "1", features = ["derive"] }
serde_json = "1"
parking_lot = "0.12"
crossbeam = "0.8"
tracing = "0.1"
tracing-subscriber = { version = "0.3", features = ["env-filter"] }
clap = { version = "4", features = ["derive"] }
winit = "0.28"
pixels = "0.13"
wgpu = "0.16"
egui = "0.22"
egui-wgpu = "0.22"
egui-winit = "0.22"
