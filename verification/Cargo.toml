[package]
name = "led_morse"
version = "0.1.0"
edition = "2021"
publish = false

[dependencies]
morse = "*"
