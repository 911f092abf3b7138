[package]
name = "eleve_ui"
version = "0.1.0"
edition = "2021"
publish = false

[dependencies]
iced = { version = "=0.14.0", default-features = false, features = ["tiny-skia", "svg", "advanced", "x11", "tokio"] }
tracing = "=0.1.44"
tracing-subscriber = "=0.3.23"
