[package]
name = "aws_net_hound"
version = "0.1.0"
edition = "2021"
publish = false

[dependencies]
anyhow = "=1.0.104"
aws-config = "=1.13.0"
aws-credential-types = "=1.3.1"
aws-sdk-sts = "=1.124.0"
aws-smithy-async = "=1.3.1"
aws-smithy-runtime-api = "=1.19.2"
clap = { version = "=4.6.7", features = ["derive"] }
neo4rs = "=0.8.0"
serde = { version = "=1.0.229", features = ["derive"] }
serde_norway = "=0.9.42"
thiserror = "=2.0.21"
tokio = { version = "=1.54.1", features = ["macros", "process", "rt-multi-thread", "time"] }
tracing = "=0.1.44"
tracing-subscriber = { version = "=0.3.23", features = ["env-filter"] }

[dev-dependencies]
aws-smithy-types = "=1.9.1"
