[package]
name = "agg"
version = "0.1.0"
edition = "2021"
publish = false

[dependencies]
avt = "*"
fontdb = "*"
usvg = "*"
resvg = "*"
tiny-skia = "*"
fontdue = "*"
gifski = "*"
imgref = "*"
rgb = "*"
anyhow = "*"
clap = { version = "*", features = ["derive"] }
env_logger = "*"
log = "*"
