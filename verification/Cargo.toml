[package]
name = "model-mdx"
version = "0.1.0"
edition = "2021"

[dependencies]
bitflags = "1.3"
log = "0.4"
thiserror = "1.0"
