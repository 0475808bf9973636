[package]
name = "bulge"
version = "0.1.0"
edition = "2021"
publish = false

[dependencies]
ring = "*"
hex = "*"
tar = "*"
xz2 = "*"
isahc = "*"
serde = { version = "*", features = ["derive"] }
serde_json = "*"
sudo = "*"
text_io = "*"
