[package]
name = "scout"
version = "0.1.0"
edition = "2021"
publish = false

[dependencies]
xxhash-rust = { version = "=0.8.19", features = ["xxh3"] }
anyhow = "=1.0.104"
clap = { version = "=4.6.7", features = ["derive"] }
colored = "=3.1.1"
serde = { version = "=1.0.229", features = ["derive"] }
serde_json = "=1.0.154"
rmp-serde = "=1.3.1"
walkdir = "=2.5.0"
rayon = "=1.12.0"
hdbscan = "=0.12.0"
ndarray = "=0.17.2"
umap-rs = "=0.4.5"
image = { version = "=0.25.10", default-features = false, features = ["jpeg", "png", "gif", "bmp", "webp", "tiff", "ico"] }
ort = { version = "=2.0.0-rc.15", default-features = false, features = ["std", "ndarray", "load-dynamic", "api-22", "cuda", "tensorrt", "coreml", "xnnpack"] }
tokenizers = { version = "=0.23.2", default-features = false, features = ["fancy-regex"] }
notify-debouncer-mini = "=0.7.0"
chrono = "=0.4.45"
rand = "=0.9.5"
open = "=5.4.5"
