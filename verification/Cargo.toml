[package]
name = "source_query"
version = "0.1.0"
edition = "2021"
publish = false

[dependencies]
bitvec = "1"
thiserror = "1"
tokio = { version = "1", features = ["net", "time", "rt-multi-thread", "macros"] }
