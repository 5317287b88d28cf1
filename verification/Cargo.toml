[package]
name = "jbotci"
version = "0.1.0"
edition = "2021"
publish = false

[dependencies]
owo-colors = "4"
unicode-width = "0.2"
serde_json = "1"
anyhow = "1"
clap = { version = "4", features = ["derive"] }
concolor = "0.1"
concolor-clap = "0.1"
terminal_size = "0.4"
