[package]
name = "frog_swing"
version = "0.1.0"
edition = "2021"
publish = false

[dependencies]
bevy = { version = "=0.18.1", default-features = false }
avian3d = { version = "=0.5.0", default-features = false, features = ["3d", "f32", "parry-f32"] }
noise = "=0.9.0"
