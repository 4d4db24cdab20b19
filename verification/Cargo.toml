[package]
name = "distributed_swmr_registers"
version = "0.1.0"
edition = "2021"
publish = false

[dependencies]
clap = "2"
colored = "2"
ctrlc = "3"
lazy_static = "1"
serde = { version = "1", features = ["derive"] }
serde_json = "1"
