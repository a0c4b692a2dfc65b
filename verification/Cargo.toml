[package]
name = "anni_sonic"
version = "0.1.0"
edition = "2021"
publish = false

[dependencies]
actix-utils = "3"
actix-web = "4"
anni-repo = "*"
anyhow = "1"
env_logger = "0.9"
hex = "0.4"
log = "0.4"
md5 = "0.7"
quick-xml = { version = "0.22", features = ["serialize"] }
rand = "0.8"
reqwest = { version = "0.11", features = ["json"] }
serde = { version = "1", features = ["derive"] }
toml = "0.5"
