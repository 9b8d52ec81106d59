[package]
name = "battle_search"
version = "0.1.0"
edition = "2021"
publish = false

[dependencies]
rand = "0.9"
rayon = "1"
ort = { version = "2.0.0-rc.10", default-features = false, features = ["std", "load-dynamic"] }
