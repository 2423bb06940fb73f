[package]
name = "demo_as_code_postprocess"
version = "0.1.0"
edition = "2021"
publish = false

[dependencies]
fast_image_resize = "5"
tokio = { version = "1", features = ["process", "io-util", "rt-multi-thread", "macros", "sync", "fs"] }
serde = { version = "1", features = ["derive"] }
serde_json = "1"
napi = { version = "2", features = ["async", "tokio_rt"] }
napi-derive = "2"
