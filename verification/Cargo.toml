[package]
name = "st7789"
version = "0.1.0"
edition = "2021"
publish = false

[dependencies]
byte-slice-cast = "1"
embedded-hal = "0.2"
