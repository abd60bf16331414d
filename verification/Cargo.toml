[package]
name = "tpdf"
version = "0.1.0"
edition = "2021"
publish = false

[dependencies]
clap = { version = "=4.6.7", features = ["derive"] }
crossterm = "=0.29.0"
image = { version = "=0.25.10", default-features = false }
mimalloc = "=0.1.52"
mupdf = { version = "=0.8.0", default-features = false }
ratatui = "=0.30.2"
ratatui-image = { version = "=10.0.8", default-features = false, features = ["crossterm"] }
