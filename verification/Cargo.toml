[package]
name = "clipcount"
version = "0.1.0"
edition = "2021"
publish = false

[dependencies]
clap = { version = "4", features = ["derive"] }
clipboard = "0.5"
unicode-segmentation = "1"
