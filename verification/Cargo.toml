[package]
name = "audio_visualizer"
version = "0.1.0"
edition = "2021"
publish = false

[dependencies]
num = "0.2"
rustfft = "3"
portaudio = "0.7"
serde = "1"
