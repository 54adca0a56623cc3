[package]
name = "cursed_linalg"
version = "0.1.0"
edition = "2021"
publish = false

[dependencies]
thiserror = "*"
miette = "*"

[dev-dependencies]
cauchy = "*"
num-traits = "*"
