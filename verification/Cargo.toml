[package]
name = "sqlx_pg_uint"
version = "0.1.0"
edition = "2021"
publish = false

[dependencies]
bigdecimal = { version = "=0.4.11", features = ["serde"] }
num-bigint = "=0.5.1"
serde = "*"
thiserror = "*"
sqlx = { version = "=0.9.0", default-features = false, features = ["postgres", "bigdecimal", "runtime-tokio"] }
