[package]
name = "fastembed_vectorstore"
version = "0.1.0"
edition = "2021"
publish = false

[dependencies]
fastembed = { version = "=4.9.1", default-features = false, features = ["ort-load-dynamic", "hf-hub-rustls-tls"] }
pyo3 = "=0.23.5"
serde_json = "=1.0.154"
