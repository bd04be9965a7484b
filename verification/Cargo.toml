[package]
name = "easytier_gateway"
version = "0.1.0"
edition = "2021"
publish = false

[dependencies]
sha2 = "=0.10.9"
uuid = { version = "=1.29.0", features = ["v4"] }
chrono = { version = "=0.4.45", default-features = false, features = ["std", "clock"] }
cidr = "=0.3.2"
password-auth = "=1.0.0"
serde = { version = "=1.0.229", features = ["derive"] }
serde_json = "=1.0.154"
clap = { version = "=4.6.7", features = ["derive"] }
anyhow = "=1.0.104"
thiserror = "=2.0.21"
attohttpc = { version = "=0.28.5", default-features = false, features = ["json"] }
maxminddb = "0.24"
