[package]
name = "dcache"
version = "0.1.0"
edition = "2021"
publish = false

[dependencies]
serde = { version = "*", features = ["derive"] }
serde_json = "*"
tokio = { version = "*", features = ["rt-multi-thread", "macros", "sync", "time"] }
futures = "*"
actix-web = { version = "*", default-features = false, features = ["macros"] }
sqlx = { version = "*", default-features = false, features = ["mysql", "runtime-tokio", "uuid"] }
rdkafka = "*"
async-trait = "*"
dotenv = "*"
log = "*"
log4rs = "*"
