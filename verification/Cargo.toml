[package]
name = "city_grid"
version = "0.1.0"
edition = "2021"
publish = false

[dependencies]
bracket-pathfinding = "0.8"
rand = "0.8"
