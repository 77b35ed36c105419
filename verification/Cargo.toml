[package]
name = "render3d"
version = "0.1.0"
edition = "2021"
publish = false

[dependencies]
rayon = "*"
wavefront = "*"
sixel-rs = "*"
sixel-sys = "*"
embedded-graphics = "*"
