[package]
name = "libbb"
version = "0.1.0"
edition = "2021"

[dependencies]
rusb = "0.9"
chrono = "0.4"
indicatif = "0.17"
