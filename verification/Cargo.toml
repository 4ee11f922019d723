[package]
name = "stepper_synth"
version = "0.1.0"
edition = "2021"
publish = false

[dependencies]
anyhow = "=1.0.104"
biquad = "=0.6.0"
log = "=0.4.34"
midi-control = { version = "=0.2.3", default-features = false }
midir = "=0.10.4"
reverb = "=1.0.47"
serde = { version = "=1.0.229", features = ["derive"] }
tinyaudio = "=2.0.0"
toml = "=1.1.8"
