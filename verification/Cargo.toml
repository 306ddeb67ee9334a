[package]
name = "chess_game"
version = "0.1.0"
edition = "2021"
publish = false

[dependencies]
pleco = "*"
ril = { version = "*", default-features = false, features = ["png", "text"] }
