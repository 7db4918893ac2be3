[package]
name = "gtfs_explorer"
version = "0.1.0"
edition = "2021"
publish = false

[dependencies]
chrono = { version = "0.4", default-features = false, features = ["std"] }
chrono-tz = "*"
colored = "*"
csv = "1"
curl = "0.4"
hex_color = "*"
zip = { version = "2", default-features = false, features = ["deflate"] }
