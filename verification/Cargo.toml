[package]
name = "jankenoboe"
version = "0.1.0"
edition = "2021"
publish = false

[dependencies]
anyhow = "*"
axum = "*"
hyper = "*"
jankensqlhub = "*"
jankenstore = "*"
rusqlite = { version = "*", features = ["bundled"] }
serde = { version = "*", features = ["derive"] }
serde_json = "*"
tokio = { version = "*", features = ["macros", "rt-multi-thread"] }
tower-http = { version = "*", features = ["trace", "cors"] }
tracing-subscriber = "*"
uuid = { version = "*", features = ["v4"] }
