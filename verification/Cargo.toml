[package]
name = "smithy_changelog"
version = "0.1.0"
edition = "2021"
publish = false

[dependencies]
anyhow = "=1.0.104"
clap = { version = "=4.6.7", features = ["derive"] }
ordinal = "=0.3.2"
serde = { version = "=1.0.229", features = ["derive"] }
serde_json = "=1.0.154"
time = "=0.3.55"
aws-smithy-json = "=0.65.1"
aws-smithy-types = "=1.9.1"
aws-smithy-http = "=0.64.3"
aws-smithy-http-server = "=0.69.1"
http = "=1.5.0"
