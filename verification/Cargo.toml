[package]
name = "autocorrect"
version = "1.0.0"
edition = "2021"
publish = false

[dependencies]
regex = "1"
clap = { version = "4", features = ["derive"] }
ignore = "0.4"
threadpool = "1"
num_cpus = "1"
log = "0.4"
