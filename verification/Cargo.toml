[package]
name = "solite"
version = "0.1.0"
edition = "2021"
publish = false

[dependencies]
url = "=2.5.8"
data-url = "=0.3.2"
serde_json = "1"
tokio = { version = "1", features = ["sync"] }
notify = "=8.2.1"
reqwest = { version = "=0.13.5", default-features = false, features = ["blocking"] }
winit = { version = "=0.30.13", default-features = false, features = ["x11", "rwh_06"] }
rquickjs = "=0.14.0"
blitz-dom = { version = "=0.2.4", default-features = false }
blitz-traits = "=0.2.0"
parley = "=0.6.0"
stylo = "=0.8.0"
stylo_dom = "=0.8.0"
anyrender = { version = "*", default-features = false }
kurbo = "*"
peniko = "*"
