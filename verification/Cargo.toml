[package]
name = "snake_game"
version = "0.1.0"
edition = "2021"
publish = false

[dependencies]
nalgebra = { version = "0.32", default-features = false, features = ["std"] }
rand = "0.8"
piston_window = "*"
find_folder = "0.3"
