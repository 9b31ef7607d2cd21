[package]
name = "gen_bin_project"
version = "0.1.0"
edition = "2021"
publish = false

[dependencies]
log = "0.4"
quote = "1"
serde = { version = "1", features = ["derive"] }
serde_json = "1"
simplelog = "0.12"
toml = "*"
