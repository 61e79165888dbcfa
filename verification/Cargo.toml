[package]
name = "rusty_x"
version = "0.1.0"
edition = "2021"
publish = false

[dependencies]
fuzzy-matcher = "=0.3.7"
crossterm = "=0.27.0"
dirs = "*"
toml = "*"
serde = { version = "1", features = ["derive"] }
docopt = "1"
ansi_term = "0.12"
prettyprint = "*"
