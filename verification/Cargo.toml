[package]
name = "wecom_gpt"
version = "0.1.0"
edition = "2021"
publish = false

[dependencies]
aes-gcm = "=0.10.3"
base16ct = { version = "=1.0.0", features = ["alloc"] }
base64 = "=0.21.7"
rand = "=0.8.8"
sha1 = "=0.10.7"
serde = { version = "=1.0.229", features = ["derive"] }
serde-xml-rs = "=0.8.2"
axum = "=0.8.9"
tokio = { version = "=1.53.2", features = ["full"] }
reqwest = { version = "=0.11.27", features = ["json"] }
envy = "=0.4.2"
tracing = "=0.1.44"
tracing-subscriber = { version = "=0.3.23", features = ["env-filter"] }
tower-http = { version = "=0.7.1", features = ["trace"] }
wecom-agent = "=0.1.16"
