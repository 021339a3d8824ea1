[package]
name = "hello4000"
version = "0.1.0"
edition = "2021"
publish = false

[dependencies]
anyhow = "1"
cdrs = "*"
gethostname = "0.2"
pfacts = "*"
rand = "0.8"
rocket = { version = "0.5", features = ["json", "uuid"] }
structopt = "0.3"
uuid = "0.8"
