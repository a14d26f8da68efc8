[package]
name = "octopush"
version = "0.1.0"
edition = "2021"
publish = false

[dependencies]
clap = { version = "*", features = ["derive"] }
colored = "*"
console = "*"
dialoguer = "*"
indicatif = "*"
rustyline = "*"
serde = { version = "*", features = ["derive"] }
toml = "*"
