[package]
name = "greenhorn"
version = "0.1.0"
edition = "2021"
publish = false

[dependencies]
pulldown-cmark = "*"
serde = { version = "*", features = ["derive"] }
toml = "*"
tokio = { version = "*", features = ["macros", "rt-multi-thread", "fs", "net"] }
axum = "*"
structopt = "*"
thiserror = "*"
