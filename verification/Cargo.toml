[package]
name = "game_of_life"
version = "0.1.0"
edition = "2021"
publish = false

[dependencies]
rand = "0.8"
structopt = "0.3"
gl = "*"
glfw = "*"
cgmath = "*"
