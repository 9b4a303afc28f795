[package]
name = "dottler"
version = "0.1.0"
edition = "2021"
publish = false

[dependencies]
chrono = "0.4"
clap = { version = "4", features = ["derive"] }
exitcode = "1"
git2 = "*"
walkdir = "2"
