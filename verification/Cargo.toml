[package]
name = "exif_sorter"
version = "0.1.0"
edition = "2021"
publish = false

[dependencies]
anyhow = "1"
chrono = "0.4"
clap = { version = "4", features = ["derive"] }
colored = "2"
crossterm = "0.27"
kamadak-exif = "0.5"
ratatui = "0.26"
thiserror = "1"
tokio = { version = "1", features = ["macros", "rt-multi-thread"] }
walkdir = "2"
