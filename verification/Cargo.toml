[package]
name = "planner"
version = "0.1.0"
edition = "2021"
publish = false

[dependencies]
actix-cors = "0.7"
actix-web = { version = "4", default-features = false, features = ["macros"] }
chrono = "0.4"
serde = { version = "1", features = ["derive"] }
uuid = { version = "1", features = ["v4", "serde"] }
