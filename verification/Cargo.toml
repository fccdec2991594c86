[package]
name = "with_baby_geo"
version = "0.1.0"
edition = "2021"
publish = false

[dependencies]
actix_header = "*"
actix-web = { version = "*", default-features = false, features = ["macros"] }
futures = "*"
h3o = "*"
mongodb = "=2.8.2"
redlock = "=1.2.0"
serde = { version = "*", features = ["derive"] }
tokio = { version = "*", features = ["macros", "rt-multi-thread", "time"] }
