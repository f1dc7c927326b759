[package]
name = "houdini"
version = "0.1.0"
edition = "2021"
publish = false

[dependencies]
axum = { version = "0.8", features = ["ws"] }
bytes = "1"
clap = { version = "4", features = ["derive", "env"] }
color-eyre = "0.6"
ctrlc = { version = "3", features = ["termination"] }
derive-getters = "0.5"
displaydoc = "0.2"
eyre = "0.6"
futures = "0.3"
http = "1"
http-body-util = "0.1"
hyper = { version = "1", features = ["client", "server", "http1"] }
hyper-util = { version = "0.1", features = ["tokio", "client-legacy", "http1"] }
postcard = { version = "1", features = ["use-std"] }
secrecy = { version = "0.10", features = ["serde"] }
serde = { version = "1", features = ["derive"] }
subtle = "2"
thiserror = "2"
tokio = { version = "1", features = ["full"] }
tokio-tungstenite = "0.24"
tokio-util = "0.7"
toml = "0.8"
tracing = "0.1"
tracing-error = "0.2"
tracing-subscriber = { version = "0.3", features = ["env-filter"] }
tracing-tree = "0.4"
url = { version = "2", features = ["serde"] }
