[package]
name = "spectrum_canvas"
version = "0.1.0"
edition = "2021"
publish = false

[dependencies]
crossterm = "*"
itertools = "*"
pipewire = "*"
rustfft = "*"
