[package]
name = "boids"
version = "0.1.0"
edition = "2021"
publish = false

[dependencies]
rand = "0.4"
piston = "*"
piston2d-graphics = "*"
pistoncore-sdl2_window = "*"
piston2d-opengl_graphics = "*"
