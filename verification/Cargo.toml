[package]
name = "scene_render"
version = "0.1.0"
edition = "2021"
publish = false

[dependencies]
piet = "*"
piet-common = "*"
kurbo = "*"
usvg = "*"
image = "*"
