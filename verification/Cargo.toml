[package]
name = "quiver_types"
version = "0.1.0"
edition = "2021"
publish = false

[dependencies]
arrow = { version = "58", default-features = false }
bytemuck = { version = "1", features = ["derive"] }
half = "2"
thiserror = "2"
