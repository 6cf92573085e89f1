[package]
name = "ingenuity_dl"
version = "0.1.0"
edition = "2021"
publish = false

[dependencies]
anyhow = "*"
bytes = "*"
clap = "*"
console = "*"
futures = "*"
gifski = "*"
image = "*"
imgref = "*"
indicatif = "*"
reqwest = { version = "*", default-features = false, features = ["blocking"] }
rgb = "*"
serde_json = "*"
tokio = { version = "*", features = ["rt-multi-thread"] }
