[package]
name = "actix_async_handler"
version = "0.1.0"
edition = "2021"
publish = false

[dependencies]
proc-macro2 = "*"
quote = "*"
syn = { version = "*", features = ["full", "fold"] }
rust-format = "*"
