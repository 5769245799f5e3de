[package]
name = "genetic_tetris"
version = "0.1.0"
edition = "2021"
publish = false

[dependencies]
rand = { version = "0.7", features = ["small_rng"] }
rand_distr = "0.2"
ggez = "0.5"
winit = "0.19"
