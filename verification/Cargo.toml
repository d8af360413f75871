[package]
name = "bevy_sudoku"
version = "0.1.0"
edition = "2021"
publish = false

[dependencies]
sudoku = "0.8"
bevy = { version = "0.15", default-features = false, features = ["bevy_state"] }
