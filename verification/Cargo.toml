[package]
name = "mkcontent"
version = "0.1.0"
edition = "2021"
publish = false

[dependencies]
aes = "0.8"
base64 = "0.22"
cbc = "0.1"
clap = { version = "4", features = ["derive"] }
handlebars = "6"
katex = "0.4"
markdown = "1"
password-hash = { version = "0.5", features = ["getrandom"] }
pbkdf2 = { version = "0.12", features = ["simple"] }
quick-xml = "0.37"
serde = { version = "1", features = ["derive"] }
serde_json = "1"
sha2 = "0.10"
time = { version = "0.3", features = ["serde", "formatting", "parsing", "local-offset"] }
toml = "0.8"
