[package]
name = "funpedals"
version = "0.1.0"
edition = "2021"
publish = false

[dependencies]
fundsp = "0.23"
serde = { version = "1", features = ["derive"] }
toml = "0.8"
alsa = "0.9"
ringbuf = "0.4"
sdl2 = { version = "0.36", features = ["ttf"] }
cpal = "0.15"
