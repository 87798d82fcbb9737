[package]
name = "imgopt"
version = "0.1.0"
edition = "2021"
publish = false

[dependencies]
clap = { version = "=4.6.7", features = ["derive"] }
humansize = "=2.1.3"
image = { version = "=0.25.10", default-features = false, features = ["jpeg", "png"] }
imgref = "=1.12.3"
indicatif = "=0.18.6"
mozjpeg = "=0.10.13"
ravif = { version = "=0.13.0", default-features = false, features = ["threading"] }
rayon = "=1.12.0"
rgb = "=0.8.53"
tempfile = "=3.27.0"
walkdir = "=2.5.0"
webp = "=0.3.1"
