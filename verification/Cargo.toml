[package]
name = "wordsmith"
version = "0.1.0"
edition = "2021"
publish = false

[dependencies]
comrak = "=0.55.0"
clap = { version = "=4.6.7", features = ["derive"] }
yaml-rust = "=0.4.5"
headless_chrome = "=0.9.0"
colored = "=3.1.1"
log = "=0.4.34"
simple_logger = "=5.2.0"
