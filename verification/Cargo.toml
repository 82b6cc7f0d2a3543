[package]
name = "wrotepad"
version = "0.1.0"
edition = "2021"
publish = false

[dependencies]
eframe = { version = "0.24", default-features = false, features = ["glow"] }
rfd = "=0.14.1"
