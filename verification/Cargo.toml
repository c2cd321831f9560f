[package]
name = "crawler"
version = "0.1.0"
edition = "2021"
publish = false

[dependencies]
url = "*"
reqwest = { version = "*", default-features = false, features = ["blocking"] }
chrono = { version = "*", default-features = false, features = ["clock", "std"] }

[dev-dependencies]
regex = "*"
