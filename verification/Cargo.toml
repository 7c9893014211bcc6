[package]
name = "embed_ui"
version = "0.1.0"
edition = "2021"
publish = false

[dependencies]
heapless = "=0.7.17"
cstr_core = "=0.2.6"
