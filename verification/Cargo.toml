[package]
name = "openclip"
version = "0.1.0"
edition = "2021"
publish = false

[dependencies]
aes-gcm = "0.10"
lz4_flex = "0.11"
serde = { version = "1", features = ["derive"] }
serde_json = "1"
directories = "6"
clipboard-rs = "0.3"
tray-icon = "0.26"
winit = "0.30"
image = { version = "0.25", default-features = false, features = ["png"] }
mimalloc = "0.1"
