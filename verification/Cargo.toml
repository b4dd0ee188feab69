[package]
name = "shared_tree"
version = "0.1.0"
edition = "2021"
publish = false

[dependencies]
anyhow = "1"
bigdecimal = "0.4"
tailcall = "0.1"
tokio = { version = "1", features = ["macros", "net", "rt-multi-thread", "time"] }
