[package]
name = "flow"
version = "0.1.0"
edition = "2021"
publish = false

[dependencies]
clap = { version = "=4.6.7", features = ["derive"] }
cli_printer = "=0.2.0"
crossterm = "=0.25.0"
