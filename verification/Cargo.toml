[package]
name = "rogue_core"
version = "0.1.0"
edition = "2021"
publish = false

[dependencies]
rand = "0.8"
rand_distr = "0.4"
priority-queue = "2"
petgraph = "0.6"
itertools = "0.13"
num = "0.4"
log = "0.4"
simplelog = "0.12"
serde = { version = "1", features = ["derive"] }
serde_yaml = "0.9"
derive_more = { version = "1", features = ["from"] }
