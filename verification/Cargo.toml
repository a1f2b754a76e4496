[package]
name = "dirserve"
version = "0.1.0"
edition = "2021"
publish = false

[dependencies]
urlencoding = "2"
mime_guess = "2"
querystring = "*"
tera = { version = "1", default-features = false }
serde_json = "1"
hyper = { version = "0.14", features = ["server", "http1", "tcp"] }
tokio = { version = "1", features = ["rt-multi-thread", "macros", "fs", "io-util", "net"] }
clap = { version = "4", features = ["derive"] }
config = { version = "*", default-features = false, features = ["toml"] }
anyhow = "1"
