[package]
name = "nnn"
version = "0.1.0"
edition = "2021"
publish = false

[dependencies]
anyhow = "1"
blake3 = { version = "1", features = ["pure"] }
clap = { version = "4", features = ["derive"] }
env_logger = "0.11"
landlock = "0.4"
libc = "0.2"
log = "0.4"
miniz_oxide = "0.8"
seccompiler = "0.4"
serde = { version = "1", features = ["derive"] }
serde_json = "1"
toml_edit = { version = "0.22", features = ["serde"] }
