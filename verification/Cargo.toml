[package]
name = "fingest_client"
version = "0.1.0"
edition = "2021"
publish = false

[dependencies]
bigdecimal = "=0.4.11"
chrono = { version = "=0.4.45", default-features = false, features = ["std", "clock", "wasmbind"] }
serde = { version = "=1.0.229", features = ["derive"] }
serde_json = "=1.0.154"
reqwest = { version = "=0.12.28", default-features = false, features = ["json"] }
async-trait = "=0.1.92"
thiserror = "=2.0.21"
tracing = "=0.1.44"
jni = "=0.21.1"
ndk-context = "=0.1.1"
