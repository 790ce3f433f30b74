[package]
name = "imgclr"
version = "0.1.0"
edition = "2021"
publish = false

[dependencies]
clap = "=3.2.25"
color_processing = "=0.6.3"
colored = "=3.1.1"
image = "=0.25.10"
indicatif = "0.18"
