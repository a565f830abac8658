[package]
name = "kafka_bridge"
version = "0.1.0"
edition = "2021"
publish = false

[dependencies]
axum = "0.7"
dotenv = "0.15"
rdkafka = "*"
serde = { version = "1", features = ["derive"] }
tokio = { version = "1", features = ["macros", "rt-multi-thread", "net"] }
zerocopy = "0.7"
zerocopy-derive = "0.7"
