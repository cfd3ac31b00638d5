[package]
name = "conda_rlock"
version = "0.1.0"
edition = "2021"
publish = false

[dependencies]
dirs = "=7.0.0"
file_url = "=0.2.4"
indexmap = "=2.14.2"
miette = "=7.6.0"
pep440_rs = "=0.7.3"
pep508_rs = "=0.9.2"
pyo3 = "=0.30.1"
rattler_conda_types = "=0.31.6"
rattler_digest = "=1.1.0"
rattler_lock = "=0.22.49"
rattler_macros = "=1.0.8"
rattler_redaction = "=0.1.9"
reqwest = { version = "=0.13.5", default-features = false }
reqwest-middleware = "=0.5.2"
serde = { version = "1", features = ["derive"] }
tokio = { version = "=1.54.1", features = ["rt-multi-thread"] }
url = "=2.5.8"
