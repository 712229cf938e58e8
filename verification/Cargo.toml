[package]
name = "catlog"
version = "0.1.0"
edition = "2021"
publish = false

[dependencies]
nonempty = "*"
ustr = "1"
serde = { version = "1", features = ["derive"] }
serde_json = "1"
uuid = { version = "1", features = ["v7", "serde"] }
sqlx = { version = "0.8", default-features = false, features = ["postgres", "runtime-tokio", "uuid", "json"] }
ts-rs = { version = "*", features = ["serde-json-impl", "uuid-impl"] }
tsify-next = { version = "*", features = ["js"] }
