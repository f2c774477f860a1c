[package]
name = "hra"
version = "0.1.0"
edition = "2021"
publish = false

[dependencies]
rand = "0.8"
serde_json = "1"
reqwest = { version = "0.12", default-features = false, features = ["blocking", "rustls-tls"] }
raster = "*"
leptess = "*"
glob = "*"
mp4 = "*"
mp4-merge = "*"
text-to-png = "*"
