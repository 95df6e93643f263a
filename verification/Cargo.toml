[package]
name = "xmlrec"
version = "0.1.0"
edition = "2021"
publish = false

[dependencies]
quick-xml = "*"
clap = { version = "*", features = ["derive"] }
csv = "*"
flate2 = "*"
tar = "*"
