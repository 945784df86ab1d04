[package]
name = "reggie"
version = "0.1.0"
edition = "2021"
publish = false

[dependencies]
indexmap = "*"
dashmap = "*"
string-interner = "*"
clap = { version = "*", features = ["derive"] }
regex = "*"
rayon = "*"
winreg = "*"
