[package]
name = "rustcon"
version = "0.1.0"
edition = "2021"
publish = false

[dependencies]
bytes = "1"
clap = { version = "3", features = ["derive"] }
rpassword = "5"
