[package]
name = "mktool"
version = "0.1.0"
edition = "2021"
publish = false

[dependencies]
clap = { version = "4", features = ["derive"] }
content_inspector = "0.2"
elf = "*"
glob = "0.3"
goblin = "*"
indicatif = "*"
pkgsrc = "*"
rayon = "1"
regex = "1"
reqwest = { version = "0.12", features = ["blocking"] }
thiserror = "*"
walkdir = "2"
