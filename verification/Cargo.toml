[package]
name = "junie_tui"
version = "0.1.0"
edition = "2021"
publish = false

[dependencies]
ratatui-core = "0.1"
unicode-segmentation = "1"
bitflags = "2"
