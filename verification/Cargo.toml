[package]
name = "spawn_bench"
version = "0.1.0"
edition = "2021"
publish = false

[dependencies]
tokio = { version = "1", default-features = false, features = ["rt", "rt-multi-thread", "sync"] }
num_cpus = "1"
clap = { version = "4", features = ["derive"] }
