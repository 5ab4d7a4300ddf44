[package]
name = "bacak_compositor"
version = "0.1.0"
edition = "2021"
publish = false

[dependencies]
anyhow = "=1.0.104"
clap = { version = "=4.6.7", features = ["derive"] }
freedesktop-icons = "=0.4.0"
image = { version = "=0.25.10", default-features = false, features = ["png", "jpeg", "webp"] }
libc = "=0.2.191"
notify = "=8.2.1"
qrcode = { version = "=0.14.1", default-features = false }
resvg = { version = "=0.49.0", default-features = false }
serde = { version = "=1.0.229", features = ["derive"] }
serde_json = "=1.0.154"
tracing = "=0.1.44"
tracing-subscriber = { version = "=0.3.23", features = ["env-filter"] }
ttf-parser = "=0.25.1"
zbus = "=5.19.0"
zstd = "=0.13.4"
