[package]
name = "pdfmaker"
version = "0.1.0"
edition = "2021"
publish = false
rust-version = "1.95"

[dependencies]
anyhow = "=1.0.104"
ureq = "=2.12.1"
wasmtime = "=46.0.3"
