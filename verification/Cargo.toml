[package]
name = "md2html"
version = "0.1.0"
edition = "2021"
publish = false

[dependencies]
chrono = "*"
css-minify = "*"
emojis = "*"
url = "*"
clap = { version = "*", features = ["derive"] }
comrak = "*"
syntect = { version = "*", default-features = false, features = ["default-fancy"] }
