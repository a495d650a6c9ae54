[package]
name = "pixel_collision"
version = "0.1.0"
edition = "2021"
publish = false

[dependencies]
rayon = "1"
macroquad = "0.4"
miniquad = "0.4"
rapier2d = "*"
