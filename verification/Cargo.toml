[package]
name = "whispering"
version = "0.1.0"
edition = "2021"
publish = false

[dependencies]
cpal = "=0.18.2"
rubato = "=0.16.2"
tempfile = "=3.27.0"
transcribe-rs = "=0.3.12"

[dev-dependencies]
hound = "=3.5.1"
