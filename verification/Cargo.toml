[package]
name = "lanlink"
version = "0.1.0"
edition = "2021"
publish = false

[dependencies]
rand = "=0.8.8"
rcgen = { version = "=0.13.2", default-features = false, features = ["crypto", "ring", "pem"] }
serde = { version = "=1.0.229", features = ["derive"] }
serde_json = "=1.0.154"
tokio = { version = "=1.54.1", features = ["full"] }
reqwest = { version = "=0.12.28", default-features = false, features = ["json", "rustls-tls"] }
reqwest-eventsource = "=0.6.0"
futures-util = "=0.3.34"
quinn = "=0.11.12"
rustls = { version = "=0.23.46", default-features = false, features = ["ring", "std", "logging", "tls12"] }

[dev-dependencies]
regex = "1"
