[package]
name = "kdl_test"
version = "0.1.0"
edition = "2021"
publish = false

[dependencies]
anyhow = "*"
clap = { version = "*", features = ["derive"] }
colored = "*"
kdl = "*"
serde_json = "*"
which = "*"
