[package]
name = "obscura"
version = "0.1.0"
edition = "2021"
publish = false

[dependencies]
url = "2"
png = "0.17"
jpeg-encoder = "0.6"
serde = { version = "1", features = ["derive"] }
serde_json = "1"
tempfile = "3"
thiserror = "2"
tracing = "0.1"
tokio = { version = "1", features = ["rt-multi-thread", "macros"] }
anyrender = "*"
anyrender_vello_cpu = "*"
blitz-dom = "0.3.0-alpha.1"
blitz-html = "0.3.0-alpha.1"
blitz-net = "0.3.0-alpha.1"
blitz-paint = "0.3.0-alpha.1"
blitz-traits = "0.3.0-alpha.1"
peniko = "*"
