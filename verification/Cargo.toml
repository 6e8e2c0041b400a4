[package]
name = "game_of_life"
version = "0.1.0"
edition = "2021"
publish = false

[dependencies]
rand = "=0.8.8"
crossterm = "=0.27.0"
eframe = { version = "0.23", default-features = false, features = ["glow"] }
