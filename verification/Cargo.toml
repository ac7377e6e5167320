[package]
name = "style_sharing"
version = "0.1.0"
edition = "2021"
publish = false

[dependencies]
bit-vec = "=0.6.3"
selectors = "0.18"
smallvec = "=1.16.4"
