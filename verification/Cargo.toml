[package]
name = "bach"
version = "0.1.0"
edition = "2021"
publish = false

[dependencies]
chrono = "*"
quick-xml = { version = "*", features = ["serialize"] }
serde = { version = "*", features = ["derive"] }
ansi_term = "*"
