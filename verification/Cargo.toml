[package]
name = "nxfutil"
version = "0.1.0"
edition = "2021"
publish = false

[dependencies]
regex = "=1.13.1"
uuid = { version = "=1.29.1", features = ["v4"] }
chrono = "=0.4.45"
base64-url = "=4.0.1"
serde = { version = "=1.0.229", features = ["derive"] }
serde_json = "=1.0.154"
clap = { version = "=4.6.7", features = ["derive"] }
tokio = { version = "=1.54.1", features = ["full"] }
reqwest = { version = "=0.13.5", features = ["json"] }
actix-web = "=4.18.1"
actix-cors = "=0.7.2"
actix-web-grants = "=4.1.2"
axum = "=0.8.9"
http = "=1.5.0"
tower-http = { version = "=0.7.1", features = ["cors"] }
azure_core = "=0.21.0"
azure_identity = "=0.21.0"
azure_storage = "=0.21.0"
azure_storage_queues = "=0.21.0"
azure_security_keyvault = "=0.21.0"
azure_mgmt_containerinstance = "=0.21.0"
azure_mgmt_resources = "=0.21.0"
