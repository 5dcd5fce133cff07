[package]
name = "mqtt_gateway"
version = "0.1.0"
edition = "2021"
publish = false

[dependencies]
chrono = "*"
log = "*"
log4rs = "*"
paho-mqtt = "*"
serde = { version = "*", features = ["derive"] }
serde_json = "*"
sqlite = "*"
