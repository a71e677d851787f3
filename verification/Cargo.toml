[package]
name = "workout_repository"
version = "0.1.0"
edition = "2021"
publish = false

[dependencies]
actix-web = { version = "4", default-features = false, features = ["macros"] }
actix-web-httpauth = "0.8"
argonautica = "0.2"
async-trait = "0.1"
chrono = { version = "0.4", default-features = false, features = ["serde", "clock", "std"] }
dotenv = "0.15"
hmac = "0.12"
jwt = "0.16"
log = "0.4"
serde = { version = "1", features = ["derive"] }
sha2 = "0.10"
sqlx = { version = "0.8", default-features = false, features = ["runtime-tokio", "postgres", "uuid", "chrono", "macros"] }
uuid = { version = "1", features = ["serde", "v4"] }
