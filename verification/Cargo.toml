[package]
name = "video_sync"
version = "0.1.0"
edition = "2021"
publish = false

[dependencies]
anyhow = "1"
async-process = "1"
async-std = "1"
crossbeam = "0.8"
futures = "0.3"
hex = "0.4"
itertools = "0.9"
memmap = "0.7"
rand = "0.7"
serde = { version = "1", features = ["derive"] }
serde_json = "1"
sha2 = "0.9"
structopt = "0.3"
tracing = "0.1"
tracing-futures = "0.2"
tracing-subscriber = { version = "0.3", features = ["env-filter"] }
