[package]
name = "cyclomatic_complexity"
version = "0.1.0"
edition = "2021"
publish = false

[dependencies]
clap = "2"
syn = { version = "1", features = ["full", "extra-traits"] }
