[package]
name = "dota_smash"
version = "0.1.0"
edition = "2021"
publish = false

[dependencies]
bevy = { version = "0.8", default-features = false }
bytemuck = { version = "1", features = ["derive"] }
