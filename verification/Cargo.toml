[package]
name = "launcher_core"
version = "0.1.0"
edition = "2021"
publish = false

[dependencies]
fuzzy-matcher = "0.3"
rust-ini = "*"
linicon = "*"
walkdir = "2"
xdg = "2"
