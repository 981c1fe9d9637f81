[package]
name = "newsletter"
version = "0.1.0"
edition = "2021"
publish = false

[dependencies]
validator = "*"
unicode-segmentation = "*"
uuid = { version = "*", features = ["v4"] }
chrono = { version = "*", default-features = false, features = ["clock"] }
base64 = "*"
rand = "*"
actix-web = { version = "*", default-features = false, features = ["macros"] }
sqlx = { version = "*", default-features = false, features = ["runtime-tokio", "postgres", "uuid", "chrono"] }
tokio = { version = "*", features = ["macros", "rt-multi-thread", "time"] }
reqwest = { version = "*", default-features = false, features = ["json"] }
serde = { version = "*", features = ["derive"] }
anyhow = "*"

[dev-dependencies]
fake = "*"
