[package]
name = "buildk"
version = "0.1.0"
edition = "2021"
publish = false

[dependencies]
roxmltree = "0.19"
toml_edit = "0.21"
regex = "1"
xml-rs = "0.8"
home = "0.5"
gryf = "*"
serde = { version = "1", features = ["derive"] }
serde_json = "1"
clap = { version = "4", features = ["derive"] }
termtree = "0.4"
async-std = "1"
futures = "0.3"
surf = "2"
anyhow = "1"
