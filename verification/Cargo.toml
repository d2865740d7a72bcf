[package]
name = "audio_meter"
version = "0.1.0"
edition = "2021"
publish = false

[dependencies]
atty = "0.2"
cpal = "0.11"
tiny_http = "0.12"
