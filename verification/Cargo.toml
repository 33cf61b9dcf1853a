[package]
name = "busca"
version = "0.1.0"
edition = "2021"
publish = false

[dependencies]
atty = "*"
clap = { version = "*", features = ["derive"] }
console = "*"
glob = "*"
indicatif = { version = "*", features = ["rayon"] }
inquire = "*"
rayon = "*"
similar = { version = "*", features = ["inline"] }
term_grid = "*"
walkdir = "*"
