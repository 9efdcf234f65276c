[package]
name = "pidpro"
version = "0.1.0"
edition = "2021"
publish = false

[dependencies]
rusqlite = "*"
serde_json = "1"
embedded-hal = "0.2.7"
linux-embedded-hal = "*"
rppal = "*"
crossterm = "*"
esp-idf-hal = "*"
