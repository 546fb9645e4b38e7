[package]
name = "ravrosr"
version = "0.1.0"
edition = "2021"
publish = false

[dependencies]
apache-avro = "*"
base64 = "*"
extendr-api = "*"
once_cell = "*"
rdkafka = "*"
reqwest = { version = "*", features = ["json"] }
schema_registry_converter = { version = "*", features = ["avro"] }
serde_json = "*"
tokio = { version = "*", features = ["rt-multi-thread"] }
