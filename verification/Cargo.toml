[package]
name = "love_note"
version = "0.1.0"
edition = "2021"
publish = false

[dependencies]
redb = "*"
uuid = { version = "*", features = ["v4"] }
chrono = "*"
directories = "*"
