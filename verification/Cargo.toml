[package]
name = "rab"
version = "0.1.0"
edition = "2021"
publish = false

[dependencies]
mio = { version = "0.8", features = ["os-poll", "net"] }
structopt = "0.3"
url = "2"
