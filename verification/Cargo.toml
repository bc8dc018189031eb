[package]
name = "kafka_ingest"
version = "0.1.0"
edition = "2021"
publish = false

[dependencies]
serde_json = "1"
serde = { version = "1", features = ["derive"] }
tokio = { version = "1", features = ["macros", "rt-multi-thread", "time"] }
futures = "0.3"
rdkafka = "*"
deadpool-postgres = "*"
tokio-postgres = "*"
ctrlc = "*"
log = "*"
env_logger = "*"
