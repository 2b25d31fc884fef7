[package]
name = "dev_console"
version = "0.1.0"
edition = "2021"
publish = false

[dependencies]
bevy = { version = "=0.14.2", default-features = false, features = ["x11"] }
bevy_egui = { version = "=0.29.0", default-features = false }
