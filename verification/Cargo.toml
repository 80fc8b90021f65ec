[package]
name = "capnez_codegen"
version = "0.1.0"
edition = "2021"
publish = false

[dependencies]
anyhow = "1"
capnpc = "*"
serde = { version = "1", features = ["derive"] }
syn = { version = "2", features = ["full"] }
walkdir = "2"
