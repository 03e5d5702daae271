[package]
name = "rltbl"
version = "0.1.0"
edition = "2021"
publish = false

[dependencies]
regex = "=1.13.1"
serde_json = "=1.0.154"
indexmap = "=2.14.2"
enquote = "=1.1.0"
random_color = "=1.1.0"
sprintf = "=0.4.3"
tabwriter = "=1.4.1"
colored = "=3.1.1"
csv = "=1.4.0"
serde = { version = "=1.0.229", features = ["derive"] }
clap = { version = "=4.6.7", features = ["derive", "env"] }
anyhow = "=1.0.104"
whoami = "=2.1.3"
rand = "0.8"
