[package]
name = "tank_game"
version = "0.1.0"
edition = "2021"
publish = false

[dependencies]
rand = "0.8"
image = "0.23"
plotters = "0.3"
plotters-backend = "0.3"
