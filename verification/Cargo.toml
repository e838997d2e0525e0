[package]
name = "grpcmock"
version = "0.1.0"
edition = "2021"
publish = false

[dependencies]
bytes = "1"
futures = "0.3"
http = "1"
http-body = "1"
http-body-util = "0.1"
http-serde = "2"
prost = "0.13"
rand = "0.8"
serde = { version = "1", features = ["derive"] }
serde_json = "1"
serde_yml = "*"
thiserror = "1"
tokio = { version = "1", features = ["net", "rt", "time"] }
tonic = "0.12"
tracing = "0.1"
