[package]
name = "punks"
version = "0.1.0"
edition = "2021"
publish = false

[dependencies]
cpal = "=0.15.3"
rubato = "=0.15.0"
symphonia = { version = "=0.5.5", features = ["mp3"] }
