[package]
name = "tabiew"
version = "0.1.0"
edition = "2021"
publish = false

[dependencies]
clap = { version = "4.5", features = ["derive"] }
crossterm = "0.27.0"
polars = { version = "0.41.3", default-features = false, features = ["csv", "parquet"] }
ratatui = "0.27.0"
tempfile = "3"
