[package]
name = "tf2_lobby"
version = "0.1.0"
edition = "2021"
publish = false

[dependencies]
bus = "2"
chrono = "0.4"
egui = "0.27"
log = "0.4"
