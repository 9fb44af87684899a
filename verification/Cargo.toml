[package]
name = "bumble"
version = "0.1.0"
edition = "2021"
publish = false

[dependencies]
static_aabb2d_index = "*"
macroquad = "*"
