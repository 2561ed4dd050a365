[package]
name = "render_text_desktop"
version = "0.1.0"
edition = "2021"
publish = false

[dependencies]
rusttype = "*"
