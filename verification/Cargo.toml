[package]
name = "brewer"
version = "0.1.0"
edition = "2021"
publish = false

[dependencies]
jammdb = "*"
chrono = "*"
nucleo-matcher = "*"
anyhow = "*"
clap = { version = "*", features = ["derive"] }
colored = "*"
config = { version = "*", default-features = false, features = ["toml"] }
dirs = "*"
env_logger = "*"
inquire = "*"
log = "*"
open = "*"
prettytable-rs = "*"
serde = { version = "*", features = ["derive"] }
serde_json = "*"
terminal_size = "*"
textwrap = "*"
