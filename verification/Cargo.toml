[package]
name = "ray"
version = "0.1.0"
edition = "2021"
publish = false

[dependencies]
anki_direct = "*"
anyhow = "=1.0.104"
arboard = { version = "=3.7.0", default-features = false, features = ["image-data"] }
bitflags = "=2.13.2"
chrono = "=0.4.45"
clap = "=4.6.7"
core-foundation = "=0.9.4"
crossbeam-channel = "=0.5.17"
dirs = "=5.0.1"
global-hotkey = "=0.6.4"
image = { version = "=0.25.10", default-features = false, features = ["png"] }
macroquad = { version = "=0.4.16", default-features = false }
microfft = "=0.6.0"
objc = "=0.2.7"
rusqlite = { version = "=0.31.0", features = ["bundled"] }
serde = { version = "=1.0.229", features = ["derive"] }
tracing = "=0.1.44"
tracing-core = "=0.1.36"
tracing-subscriber = "=0.3.23"
yomichan_rs = "*"
