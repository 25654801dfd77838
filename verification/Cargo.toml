[package]
name = "spv_block"
version = "0.1.0"
edition = "2021"
publish = false

[dependencies]
spirv = "0.2"
