[package]
name = "actias"
version = "0.1.0"
edition = "2021"
publish = false

[dependencies]
anyhow = "1"
argon2 = "0.5"
base64 = "0.21"
dotenv = "0.15"
hyper = { version = "0.14", features = ["client", "server", "http1", "http2", "tcp"] }
hyper-tls = "0.5"
jsonwebtoken = "8"
lz4_flex = "0.11"
mlua = { version = "0.9", features = ["luau", "async", "serialize"] }
rsa = "0.9"
scylla = "0.9"
serde = { version = "1", features = ["derive"] }
serde_json = "1"
sha2 = "0.10"
sqlx = { version = "0.7", default-features = false, features = ["postgres", "runtime-tokio", "uuid", "chrono", "json", "macros"] }
tokio = { version = "1", features = ["rt-multi-thread", "macros"] }
uuid = { version = "1", features = ["v4"] }
wax = "0.5"
