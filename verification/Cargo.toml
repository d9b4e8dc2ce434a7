[package]
name = "immuxdb"
version = "0.1.0"
edition = "2021"
publish = false

[dependencies]
bson = "0.14"
url = "2"
sqlparser = "0.3"
chrono = "0.4"
tiny_http = "0.12"
reqwest = { version = "0.12", default-features = false, features = ["blocking"] }
bincode = "1"
serde = { version = "1", features = ["derive"] }
