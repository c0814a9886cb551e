[package]
name = "gcs"
version = "0.1.0"
edition = "2021"
publish = false

[dependencies]
uuid = { version = "0.8", features = ["v4"] }
chrono = "0.4"
diesel = { version = "1.4", features = ["sqlite", "r2d2"] }
libsqlite3-sys = { version = "0.22", features = ["bundled"] }
r2d2 = "0.8"
dotenv = "0.15"
clap = { version = "3", features = ["derive"] }
