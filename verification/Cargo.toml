[package]
name = "chess_server"
version = "0.1.0"
edition = "2021"
publish = false

[dependencies]
chess = "3"
rand = "0.7"
