[package]
name = "image_hosting_worker"
version = "0.1.0"
edition = "2021"
publish = false

[dependencies]
serde = { version = "*", features = ["derive"] }
serde_json = "*"
image = "*"
tokenizers = "*"
ndarray = "*"
amqprs = "*"
elasticsearch = "=8.19.0-alpha.1"
tokio = { version = "*", features = ["rt-multi-thread", "macros", "signal", "sync", "time", "fs"] }
async-trait = "*"
clap = { version = "*", features = ["derive"] }
dotenvy = "*"
anyhow = "*"
ort = "=2.0.0-rc.13"
kamadak-exif = "*"
