[package]
name = "textutils"
version = "0.1.0"
edition = "2021"
publish = false

[dependencies]
chrono = "0.4"
clap = "2"
regex = "1"
tabular = "*"
walkdir = "2"
