[package]
name = "raytracer"
version = "0.1.0"
edition = "2021"
publish = false

[dependencies]
uuid = { version = "0.8", features = ["v4"] }
olc_pixel_game_engine = "*"
