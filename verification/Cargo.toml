[package]
name = "franklin_client"
version = "0.1.0"
edition = "2021"
publish = false

[dependencies]
term_size = "0.3"
