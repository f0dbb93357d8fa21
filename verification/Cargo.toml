[package]
name = "file_upload"
version = "0.1.0"
edition = "2021"
publish = false

[dependencies]
actix-multipart = "*"
actix-web = "*"
bytes = "*"
chrono = "*"
dotenv = "*"
futures = "*"
mime_guess = "*"
serde = { version = "*", features = ["derive"] }
sqlx = { version = "*", default-features = false, features = ["postgres", "runtime-tokio", "chrono"] }
tokio = { version = "*", features = ["fs", "io-util", "macros", "rt-multi-thread"] }
tokio-util = { version = "*", features = ["codec"] }
uuid = { version = "*", features = ["v4"] }
