[package]
name = "spark_model"
version = "0.1.0"
edition = "2021"
publish = false

[dependencies]
anyhow = "1"
half = "2"
tracing = "0.1"
