[package]
name = "led_matrix"
version = "0.1.0"
edition = "2021"
publish = false

[dependencies]
anyhow = "1"
serde = { version = "1", features = ["derive"] }
serialport = { version = "4", default-features = false }
slint = { version = "1", default-features = false, features = ["std", "compat-1-2"] }
thiserror = "1"
toml_edit = { version = "0.22", features = ["serde"] }
tracing = "0.1"
tracing-subscriber = "0.3"
