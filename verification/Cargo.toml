[package]
name = "doer"
version = "0.1.0"
edition = "2021"
publish = false

[dependencies]
kdl = "6"
clap = { version = "4", features = ["derive"] }
colored = "3"
libc = "0.2"
tokio = { version = "1", features = ["process", "macros", "rt-multi-thread", "rt"] }
anyhow = "1"
