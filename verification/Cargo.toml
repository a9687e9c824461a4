[package]
name = "raytracing_rs"
version = "0.1.0"
edition = "2021"

[dependencies]
rand = "0.8"
threadpool = "1.8"
