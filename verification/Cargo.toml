[package]
name = "kanaeru"
version = "0.1.0"
edition = "2021"
publish = false

[dependencies]
uuid = "=1.27.0"
rand = "=0.10.3"
argon2 = "=0.6.0"
time = "=0.3.55"
amqprs = "=2.1.5"
tokio = { version = "=1.53.2", default-features = false, features = ["rt", "sync", "macros", "time"] }
redis = { version = "=1.7.1", default-features = false, features = ["aio", "tokio-comp"] }
sqlx = { version = "=0.9.0", default-features = false, features = ["postgres", "uuid", "time"] }
tonic = { version = "=0.14.6", default-features = false }
