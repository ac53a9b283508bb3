[package]
name = "anime_dl"
version = "0.1.0"
edition = "2021"
publish = false

[dependencies]
getopts = "*"
ctrlc = "*"
indicatif = "*"
urlencoding = "*"
serde = { version = "*", features = ["derive"] }
serde_json = "*"
reqwest = { version = "*", default-features = false, features = ["blocking", "json"] }
