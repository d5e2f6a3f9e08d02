[package]
name = "xl"
version = "0.1.8"
edition = "2021"
publish = false

[dependencies]
chrono = { version = "0.4", default-features = false, features = ["std"] }
quick-xml = "0.22"
regex = "1"
zip = { version = "0.5", default-features = false, features = ["deflate"] }
