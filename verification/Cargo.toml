[package]
name = "beast"
version = "0.1.0"
edition = "2021"
publish = false

[dependencies]
clap = "*"
colored = "*"
execute = "*"
git2 = { version = "*", default-features = false }
glob = "*"
indicatif = "*"
is_executable = "*"
log = "*"
mongodb = { version = "*", features = ["sync"] }
plotly = "*"
preferences = "*"
regex = "*"
serde = { version = "*", features = ["derive"] }
serde_json = "*"
serde_yaml = "*"
simple_logger = "*"
walkdir = "*"
