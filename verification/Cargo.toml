[package]
name = "parquet_viewer"
version = "0.1.0"
edition = "2021"
publish = false

[dependencies]
flate2 = "*"
serde_json = "*"
serde = { version = "*", features = ["derive"] }
reqwest = { version = "*", default-features = false }
tokio = { version = "*", features = ["rt-multi-thread", "macros"] }
async-trait = "*"
rustyline = "*"
glob = "*"
arrow = "*"
parquet = { version = "*", default-features = false, features = ["arrow"] }
