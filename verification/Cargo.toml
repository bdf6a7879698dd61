[package]
name = "bark_timeline"
version = "0.1.0"
edition = "2021"
publish = false

[dependencies]
chrono = "0.4"
hound = "3.5"
walkdir = "2"
cpal = "0.15"
rodio = "0.17"
