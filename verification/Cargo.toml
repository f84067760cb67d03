[package]
name = "eye_guard"
version = "0.1.0"
edition = "2021"
publish = false

[dependencies]
notify-rust = "4"
pixels = "0.10"
tokio = { version = "1", features = ["macros", "rt-multi-thread", "time"] }
winit = "0.27"
