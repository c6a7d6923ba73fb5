[package]
name = "pysqlx"
version = "0.1.0"
edition = "2021"
publish = false

[dependencies]
bytecount = "0.6"
dashmap = "6"
eyre = "0.6"
futures = "0.3"
futures-core = "0.3"
hashbrown = "0.15"
pyo3 = { version = "0.23", features = ["experimental-async"] }
sqlx = { version = "0.8", default-features = false, features = ["any", "postgres", "runtime-tokio"] }
