[package]
name = "snake"
version = "0.1.0"
edition = "2021"
publish = false

[dependencies]
good-web-game = "0.6"
quad-rand = "*"
