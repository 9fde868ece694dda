[package]
name = "caster"
version = "0.1.0"
edition = "2021"
publish = false

[dependencies]
feed-rs = "*"
html2text = "*"
html-escape = "*"
humantime = "*"
hex = "*"
tokio = { version = "*", features = ["full"] }
reqwest = { version = "*", default-features = false, features = ["json"] }
sled = "*"
crates-index = { version = "*", default-features = false, features = ["sparse"] }
serde = { version = "*", features = ["derive"] }
serde_json = "*"
figment = { version = "*", features = ["toml", "env"] }
log = "*"
pretty_env_logger = "*"
futures = "*"
