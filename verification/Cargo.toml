[package]
name = "siphon_smpp"
version = "1.4.0"
edition = "2021"
publish = false

[dependencies]
smpp34 = "=1.5.1"
serde = { version = "1", features = ["derive"] }
serde_yaml = "0.9"
thiserror = "2"
tracing = { version = "0.1", default-features = false, features = ["std"] }
tokio = { version = "1", features = ["rt-multi-thread", "macros", "sync", "time"] }
async-trait = "0.1"
clap = { version = "4", default-features = false, features = ["std", "derive", "help", "usage", "error-context"] }
pyo3 = "=0.29.3"
pyo3-async-runtimes = { version = "=0.29.0", features = ["tokio-runtime"] }
siphon-sip = { version = "=1.8.7", default-features = false, features = ["redis-backend"] }
