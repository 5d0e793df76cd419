[package]
name = "fractal"
version = "0.1.0"
edition = "2021"
publish = false

[dependencies]
indexmap = "*"
serde_json = "*"
html2pango = "*"
comrak = { version = "*", default-features = false }
regex = "*"
chrono = "*"
rand = "*"
url = "*"
