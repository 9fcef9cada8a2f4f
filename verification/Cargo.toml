[package]
name = "roguelike_engine"
version = "0.1.0"
edition = "2021"
publish = false

[dependencies]
rltk = { version = "=0.8.7", default-features = false, features = ["crossterm"] }
shipyard = "=0.6.5"
serde = { version = "=1.0.229", features = ["derive"] }
serde_json = "=1.0.154"
strum = { version = "=0.24.1", features = ["derive"] }
strum_macros = "=0.24.3"
lazy_static = "=1.5.1"
rand = "=0.8.8"
winit = "=0.28.7"
config = "=0.13.4"
