[package]
name = "segment_pipeline"
version = "0.1.0"
edition = "2021"
publish = false

[dependencies]
anyhow = "*"
futures = "*"
reqwest = { version = "*", default-features = false }
tempfile = "*"
tokio = { version = "*", features = ["macros", "rt-multi-thread", "time", "fs"] }
