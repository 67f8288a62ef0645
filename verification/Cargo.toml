[package]
name = "rust_mesh"
version = "0.1.0"
edition = "2021"
publish = false

[dependencies]
nalgebra = "*"
num = "*"
glium = "*"
glutin = "*"
assimp = "*"
