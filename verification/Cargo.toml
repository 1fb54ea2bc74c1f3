[package]
name = "aws_iot_topics"
version = "0.1.0"
edition = "2021"
publish = false

[dependencies]
heapless = "=0.7.17"
mqttrust = "=0.4.1"
embedded-mqtt = "=0.1.0"
serde-json-core = "=0.7.0"
serde = { version = "=1.0.229", default-features = false, features = ["derive"] }
