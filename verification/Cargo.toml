[package]
name = "vga_console"
version = "0.1.0"
edition = "2021"
publish = false

[dependencies]
volatile = "0.2.6"
spin = "0.9"
lazy_static = "1"
x86_64 = { version = "0.15", default-features = false, features = ["instructions"] }
