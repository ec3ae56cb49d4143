[package]
name = "pandamonium"
version = "0.1.0"
edition = "2021"
publish = false

[dependencies]
sdl2 = "0.36"
image = { version = "0.24", default-features = false, features = ["png"] }
tiled = "0.11"
rand = { version = "0.8", features = ["small_rng"] }
find_folder = "0.3"
