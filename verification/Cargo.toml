[package]
name = "envdb"
version = "0.1.0"
edition = "2021"
publish = false

[dependencies]
clap = { version = "4", features = ["cargo"] }
exitcode = "1"
tempfile = "3"
