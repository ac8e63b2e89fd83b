[package]
name = "dbperf"
version = "0.1.0"
edition = "2021"
publish = false

[dependencies]
bincode = "1"
serde = { version = "1", features = ["derive"] }
serde_json = "1"
thiserror = "*"
async-trait = "*"
dotenv = "*"
tokio = { version = "1", features = ["macros", "rt-multi-thread", "time"] }
actix-web = "4"
reqwest = { version = "*", default-features = false, features = ["json", "rustls-tls"] }
rusty-leveldb = { version = "*", features = ["asyncdb-tokio"] }
rocksdb = "*"
mongodb = "*"
sqlx = { version = "*", features = ["postgres", "runtime-tokio"] }
