[package]
name = "dogfood"
version = "0.1.0"
edition = "2021"
publish = false

[dependencies]
handlebars = "4"
regex = "1"
regex-macro = "*"
serde = { version = "1", features = ["derive"] }
unreact = "*"
