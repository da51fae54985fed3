[package]
name = "meowww"
version = "0.1.0"
edition = "2021"
publish = false

[dependencies]
clap = "2"
horrorshow = "0.6"
rouille = { version = "2", default-features = false }
rust-embed = "3"
serde = { version = "1", features = ["derive"] }
serde_derive = "1"
serde_json = "1"
