[package]
name = "diesel_geography"
version = "0.1.0"
edition = "2021"
publish = false

[dependencies]
diesel = { version = "*", default-features = false, features = ["postgres_backend"] }
postgis = "*"
serde = { version = "*", features = ["derive"] }
