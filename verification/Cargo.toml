[package]
name = "pyonji"
version = "0.1.0"
edition = "2021"
publish = false

[dependencies]
nucleo-matcher = "*"
cansi = "*"
vt100 = "*"
portable-pty = "*"
winit = "*"
anyhow = "*"
tracing = "*"
tracing-subscriber = "*"
clap = { version = "*", features = ["derive"] }
