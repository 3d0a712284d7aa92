[package]
name = "castle_game"
version = "0.1.0"
edition = "2021"
publish = false

[dependencies]
collision = "*"
line_drawing = "*"
minifb = "*"
rand = "*"
