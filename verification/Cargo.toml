[package]
name = "soroban_drift"
version = "0.1.0"
edition = "2021"
publish = false

[dependencies]
wasmparser = "*"
syn = { version = "2", features = ["full", "extra-traits"] }
quote = "1"
proc-macro2 = "1"
walkdir = "2"
thiserror = "1"
serde = { version = "1", features = ["derive"] }
serde_json = "1"
clap = { version = "4", features = ["derive"] }
anyhow = "1"
