[package]
name = "sqlquiz"
version = "0.1.0"
edition = "2021"
publish = false

[dependencies]
actix-web = { version = "=4.18.1", default-features = false, features = ["macros"] }
actix-files = "=0.6.10"
deadpool = "=0.13.1"
deadpool-postgres = { version = "=0.14.2", features = ["serde"] }
postgres = "=0.19.14"
tera = "=1.20.1"
serde = { version = "=1.0.229", features = ["derive"] }
dotenv = "=0.15.0"
env_logger = "=0.11.11"
config = { version = "=0.15.27", default-features = false }
derive_more = "=0.99.20"
regex = "=1.13.1"
