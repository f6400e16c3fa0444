[package]
name = "tokenizer_bridge"
version = "0.1.0"
edition = "2021"
publish = false

[dependencies]
tokenizers = "=0.20.4"
