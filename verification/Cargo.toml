[package]
name = "gpx_stats"
version = "0.1.0"
edition = "2021"
publish = false

[dependencies]
actix-web = "*"
gpx = "*"
serde = { version = "*", features = ["derive"] }
