[package]
name = "nmcr"
version = "0.1.0"
edition = "2021"
publish = false

[dependencies]
anyhow = "*"
clap = { version = "*", features = ["derive"] }
console = "*"
dialoguer = "*"
handlebars = "=6.4.4"
indicatif = "*"
markdown = "=1.0.0"
rmcp = { version = "=3.5.1", features = ["transport-io"] }
serde = { version = "*", features = ["derive"] }
serde_json = "*"
tokio = { version = "*", features = ["full"] }
toml = "*"
wax = "=0.7.0"
