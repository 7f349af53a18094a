[package]
name = "pongi"
version = "0.1.0"
edition = "2021"
publish = false

[dependencies]
rect_packer = "=0.2.1"
image = { version = "=0.25.10", default-features = false, features = ["png"] }
bincode = "=1.3.3"
serde = { version = "=1.0.229", features = ["derive"] }
serde_json = "=1.0.154"
ron = "=0.12.3"
rusttype = "=0.9.3"
walkdir = "=2.5.0"
failure = "=0.1.8"
log = "=0.4.35"
fern = "=0.7.1"
aseprite = "=0.1.3"
hound = "=3.5.1"
cgmath = "=0.18.0"
lodepng = "=3.12.2"
rgb = "=0.8.53"
libloading = "0.8"
