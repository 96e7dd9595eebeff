[package]
name = "wadup"
version = "0.1.0"
edition = "2021"
publish = false

[dependencies]
anyhow = "=1.0.104"
bimap = "=0.6.3"
clap = { version = "=4.6.7", features = ["derive"] }
crossbeam = "=0.8.5"
memmap2 = "=0.9.11"
uuid = { version = "=1.27.0", features = ["v4"] }
wasmtime = "=48.0.5"
