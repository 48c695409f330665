[package]
name = "franzplot"
version = "0.1.0"
edition = "2021"
publish = false

[dependencies]
pathfinding = "*"
indexmap = "*"
serde = { version = "1", features = ["derive"] }
ron = "*"
serde_json = "1"
clap = { version = "4", features = ["derive"] }
