[package]
name = "laz2dem"
version = "0.1.0"
edition = "2021"
publish = false

[dependencies]
image = "*"
las = { version = "*", features = ["laz"] }
proj = "*"
rayon = "*"
rusqlite = { version = "*", features = ["bundled"] }
spade = "*"
