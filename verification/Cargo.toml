[package]
name = "foxtown"
version = "0.1.0"
edition = "2021"
publish = false

[dependencies]
chrono = { version = "=0.4.45", default-features = false, features = ["std", "clock"] }
base64 = "=0.22.1"
qrcode = { version = "=0.14.1", default-features = false, features = ["svg"] }
argon2 = "=0.5.3"
rand_core = { version = "=0.6.4", features = ["getrandom"] }
uuid = { version = "=1.29.1", features = ["v4"] }
serde = { version = "=1.0.229", features = ["derive"] }
serde_json = "=1.0.154"
jsonwebtoken = "=9.3.1"
dotenvy = "=0.15.7"
lettre = { version = "0.11", default-features = false, features = ["builder", "smtp-transport", "hostname", "rustls-tls"] }
