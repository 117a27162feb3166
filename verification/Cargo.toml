[package]
name = "zhihu_dl"
version = "0.1.0"
edition = "2021"
publish = false

[dependencies]
base16 = "=0.2.1"
md-5 = "=0.10.6"
url = "=2.5.8"
serde = { version = "=1.0.229", features = ["derive"] }
serde_yaml = "=0.9.34"
ron = "=0.8.1"
clap = { version = "=4.6.7", features = ["derive"] }
anyhow = "=1.0.104"
thiserror = "=1.0.69"
pandoc_ast = "=0.8.6"
serde_json = "=1.0.154"
termcolor = "=1.4.1"
scraper = "=0.29.0"
ego-tree = "*"
