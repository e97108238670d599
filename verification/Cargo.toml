[package]
name = "abe_server"
version = "0.1.0"
edition = "2021"
publish = false

[dependencies]
blake2-rfc = "=0.2.18"
diesel = { version = "=2.3.14", default-features = false, features = ["mysql_backend"] }
diesel-async = { version = "=0.9.2", default-features = false, features = ["mysql"] }
rabe = "=0.2.7"
rabe-bn = "=0.4.23"
rand = "=0.4.6"
rocket = { version = "=0.5.2", features = ["json"] }
serde = { version = "=1.0.229", features = ["derive"] }
serde_json = "=1.0.154"
uuid = { version = "=1.29.0", features = ["v4"] }
