[package]
name = "photo_manager"
version = "0.1.0"
edition = "2021"
publish = false

[dependencies]
anyhow = "=1.0.104"
chrono = "=0.4.45"
glob = "=0.3.4"
image = { version = "=0.25.10", default-features = false, features = ["jpeg", "png", "gif", "webp", "bmp", "tiff"] }
kamadak-exif = "=0.5.5"
md-5 = "=0.10.6"
rusqlite = { version = "=0.31.0", features = ["bundled"] }
serde = { version = "=1.0.229", features = ["derive"] }
serde_json = "=1.0.154"
trash = "=5.2.9"
walkdir = "=2.5.0"
turbojpeg = "1"
libheif-rs = "1"
