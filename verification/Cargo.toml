[package]
name = "adit_ui"
version = "0.1.0"
edition = "2021"
publish = false

[dependencies]
dark-light = "2"
iced = { version = "0.14", default-features = false, features = ["tiny-skia", "x11", "tokio", "advanced"] }
regex = "1"
time = { version = "0.3", features = ["local-offset"] }
tokio = { version = "1", features = ["rt"] }
unicode-width = "0.2"
