[package]
name = "flowgen"
version = "0.1.0"
edition = "2021"
publish = false

[dependencies]
async-nats = "=0.50.0"
chrono = "=0.4.45"
futures-util = "*"
handlebars = "=6.4.4"
serde = { version = "=1.0.229", features = ["derive"] }
serde_json = "=1.0.151"
tokio = { version = "=1.53.2", features = ["macros", "rt-multi-thread"] }
