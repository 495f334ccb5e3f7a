[package]
name = "worldlib"
version = "0.1.0"
edition = "2021"
publish = false

[dependencies]
hashbrown = "0.12"
indexmap = "1"
rand = { version = "0.8", features = ["small_rng"] }
serde = { version = "1", features = ["derive"] }
tinystr = "0.4"
