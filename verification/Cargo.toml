[package]
name = "openhero"
version = "0.1.0"
edition = "2021"
publish = false

[dependencies]
gilrs = "*"
kira = "*"
macroquad = "*"
serde = { version = "1", features = ["derive"] }
serde_json = "1"
