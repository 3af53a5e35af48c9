[package]
name = "query_warmup"
version = "0.1.0"
edition = "2021"
publish = false

[dependencies]
tantivy = "=0.26.2"
time = { version = "*", features = ["parsing"] }
