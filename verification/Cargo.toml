[package]
name = "rilipak"
version = "0.1.0"
edition = "2021"
publish = false

[dependencies]
anyhow = "*"
clap = { version = "*", features = ["derive"] }
colored = "*"
directories = "*"
semver = "*"
serde = { version = "*", features = ["derive"] }
serde_yml = "*"
zip = { version = "*", default-features = false, features = ["deflate"] }
