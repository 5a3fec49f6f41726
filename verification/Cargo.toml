[package]
name = "dfpm"
version = "0.1.0"
edition = "2021"
publish = false

[dependencies]
ansi_term = "0.12"
dirs = "3"
log = "0.4"
pretty_env_logger = "0.4"
serde = { version = "1.0", features = ["derive"] }
structopt = "0.3"
text_trees = "0.1"
toml = "0.5"
which = "4"
