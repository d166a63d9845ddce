[package]
name = "lasalgo"
version = "0.1.0"
edition = "2021"
publish = false

[dependencies]
rand = "0.8"
num-traits = "0.2"
piston = "*"
piston2d-graphics = "*"
piston2d-opengl_graphics = "*"
pistoncore-glutin_window = "*"
