[package]
name = "cargo_tag"
version = "0.1.0"
edition = "2021"
publish = false

[dependencies]
git2 = "*"
toml_edit = "*"
clap = { version = "*", features = ["derive"] }

[dev-dependencies]
tempfile = "*"
