[package]
name = "auth"
version = "0.1.0"
edition = "2021"
publish = false

[dependencies]
actix-cors = "0.7"
actix-files = "0.6"
actix-governor = "0.5"
actix-session = { version = "0.9", features = ["redis-rs-session"] }
actix-web = { version = "4", default-features = false, features = ["macros", "cookies", "rustls-0_21"] }
actix-web-lab = "0.20"
anyhow = "1"
argon2 = "=0.5.3"
captcha = "=0.0.9"
chrono = "=0.4.45"
config = { version = "0.13", default-features = false, features = ["yaml"] }
deadpool-redis = "0.14"
rand = "=0.8.8"
rustls = "0.21"
rustls-pemfile = "1"
secrecy = { version = "0.8", features = ["serde"] }
serde = { version = "1", features = ["derive"] }
serde_json = "=1.0.154"
serde_with = { version = "3", features = ["chrono_0_4"] }
sqlx = { version = "0.7", default-features = false, features = ["runtime-tokio", "postgres", "uuid", "chrono"] }
thiserror = "1"
tokio = { version = "1", features = ["macros", "rt-multi-thread", "time"] }
tracing = "0.1"
tracing-actix-web = "0.7"
tracing-subscriber = { version = "0.3", features = ["env-filter", "json"] }
uuid = { version = "=1.29.0", features = ["v4", "serde"] }
validator = "=0.16.1"
