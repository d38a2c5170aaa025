[package]
name = "master_render_3d"
version = "0.1.0"
edition = "2021"
publish = false

[dependencies]
png = "*"
