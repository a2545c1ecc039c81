[package]
name = "kaforge"
version = "0.1.0"
edition = "2021"
publish = false

[dependencies]
rdkafka = "*"
uuid = { version = "1", features = ["v7"] }
base64 = "*"
serde = { version = "1", features = ["derive"] }
serde_json = "1"
serde_yaml = "*"
toml = "*"
ureq = { version = "3", features = ["json"] }
apache-avro = "*"
tokio = { version = "1", features = ["rt", "time"] }
chrono = "*"
russh = "*"
aws-msk-iam-sasl-signer = "*"
aws-types = "*"
