[package]
name = "audio_toolkit"
version = "0.1.0"
edition = "2021"
publish = false

[dependencies]
rand = "0.8"
hound = "3"
cpal = "0.13"
crossbeam = "0.8"
ctrlc = "3"
