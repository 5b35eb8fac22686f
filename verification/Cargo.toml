[package]
name = "game_engine"
version = "0.1.0"
edition = "2021"
publish = false

[dependencies]
hecs = "0.10"
macroquad = "0.4"
rand = "0.8"
