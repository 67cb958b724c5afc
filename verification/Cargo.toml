[package]
name = "nsf_player"
version = "0.1.0"
edition = "2021"
publish = false

[dependencies]
anyhow = "1"
arc-swap = "1"
build-time = "0.1"
cpal = "0.15"
image = "0.22"
ringbuf = "0.4"
serde = { version = "1", features = ["derive"] }
toml = "0.8"
