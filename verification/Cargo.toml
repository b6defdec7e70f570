[package]
name = "code_block_extractor"
version = "0.1.0"
edition = "2021"
publish = false

[dependencies]
proc-macro2 = "1.0.107"
quote = "1.0.47"
proc-macro-rules = "0.4.0"
