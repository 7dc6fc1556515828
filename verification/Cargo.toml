[package]
name = "token_scan"
version = "0.1.0"
edition = "2021"
publish = false

[dependencies]
ignore = "=0.4.33"
memchr = "=2.8.3"
memmap2 = "=0.9.12"
once_cell = "=1.21.4"
rayon = "=1.12.0"
serde = { version = "=1.0.229", features = ["derive"] }
simdutf8 = "=0.1.5"
tauri = { version = "2", default-features = false }
tiktoken-rs = "=0.12.1"
tokio = { version = "1", default-features = false, features = ["sync"] }
