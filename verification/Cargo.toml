[package]
name = "wezterm-gui"
version = "0.1.0"
edition = "2021"
publish = false

[dependencies]
anyhow = "=1.0.104"
clap = { version = "=4.6.7", features = ["derive"] }
libc = "=0.2.191"
log = "=0.4.35"
mlua = { version = "0.9", features = ["lua54", "vendored", "async"] }
opentelemetry = "=0.27.1"
opentelemetry-otlp = { version = "=0.27.0", default-features = false, features = ["trace", "http-json", "reqwest-blocking-client"] }
opentelemetry_sdk = "=0.27.1"
smol = "=2.0.2"
unicode-normalization = "=0.1.26"
