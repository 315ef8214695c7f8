[package]
name = "repo_saver"
version = "0.1.0"
edition = "2021"
publish = false

[dependencies]
anyhow = "*"
dirs = "*"
eframe = { version = "*", default-features = false, features = ["glow", "x11", "default_fonts"] }
log = "*"
notify = "*"
