[package]
name = "oav_lib"
version = "0.1.0"
edition = "2021"
publish = false

[dependencies]
anyhow = "1"
libc = "0.2"
serde = { version = "1", features = ["derive"] }
serde_json = "1"
shell-words = "1"
walkdir = "2"
yaml_serde = "*"
