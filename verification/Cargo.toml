[package]
name = "libws"
version = "0.1.0"
edition = "2021"
publish = false

[dependencies]
aes-gcm = "0.10"
axum = { version = "0.7", features = ["ws"] }
base64 = "0.22"
chrono = "0.4"
futures-util = "0.3"
generic-array = "0.14"
jsonwebtoken = "9"
p256 = { version = "0.13", features = ["ecdh"] }
rand = "0.8"
rand_core = { version = "0.6", features = ["getrandom"] }
reqwest = { version = "0.12", default-features = false, features = ["json"] }
serde = { version = "1", features = ["derive"] }
serde_json = "1"
time = "0.3"
tokio = { version = "1", features = ["macros", "net", "rt-multi-thread", "sync", "time"] }
tokio-tungstenite = "0.24"
tower-http = { version = "0.6", features = ["cors", "fs"] }
typenum = "1"
url = "2"
x25519-dalek = { version = "2", features = ["static_secrets"] }
