[package]
name = "duden"
version = "0.1.0"
edition = "2021"
publish = false

[dependencies]
select = "0.6"
reqwest = { version = "0.12", default-features = false }
tokio = { version = "1", features = ["rt-multi-thread", "macros"] }
