[package]
name = "chatty"
version = "0.1.0"
edition = "2021"
publish = false

[dependencies]
anyhow = "1"
async-openai = "0.10"
base64 = "0.21"
chrono = "0.4"
clap = { version = "4", features = ["derive"] }
config = { version = "0.13", default-features = false, features = ["yaml"] }
dialoguer = "0.10"
directories = "5"
futures = "0.3"
hound = "3.5"
rumqttc = "0.20"
schemars = "0.8"
serde = { version = "1", features = ["derive"] }
serde_json = "1"
serde_yaml = "0.9"
tempdir = "0.3"
tokio = { version = "1", features = ["full"] }
tracing = "0.1"
