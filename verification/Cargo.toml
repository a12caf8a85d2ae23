[package]
name = "transcoder"
version = "0.1.0"
edition = "2021"
publish = false

[dependencies]
camino = "*"
clap = { version = "*", features = ["derive"] }
console = "*"
human-repr = "*"
indicatif = "*"
jiff = "*"
r2d2 = "*"
r2d2_sqlite = { version = "*", features = ["bundled"] }
rayon = "*"
serde = { version = "*", features = ["derive"] }
serde_json = "*"
tabled = "*"
walkdir = "*"
