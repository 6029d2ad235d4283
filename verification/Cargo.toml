[package]
name = "compositor_core"
version = "0.1.0"
edition = "2021"
publish = false

[dependencies]
crossbeam = "*"
rand = "*"
glam = "*"
parking_lot = "*"
rayon = "*"
bytemuck = { version = "*", features = ["derive"] }
