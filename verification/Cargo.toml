[package]
name = "siset"
version = "0.1.0"
edition = "2021"
publish = false

[dependencies]
argh = "0.1"
eyre = "0.6"
linux-embedded-hal = "0.3"
si5351 = "*"
