[package]
name = "cortinizer"
version = "0.1.0"
edition = "2021"
publish = false

[dependencies]
anyhow = "1"
audiotags = "0.5"
clap = { version = "4", features = ["derive"] }
dunce = "1"
futures = "0.3"
num_cpus = "1"
thiserror = "1"
tokio = { version = "1", features = ["macros", "rt-multi-thread", "process"] }
tracing = "0.1"
tracing-subscriber = { version = "0.3", features = ["env-filter", "fmt"] }
walkdir = "2"
which = "6"
