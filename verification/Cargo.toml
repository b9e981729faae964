[package]
name = "s3_browse"
version = "0.1.0"
edition = "2021"
publish = false

[dependencies]
aws-config = { version = "=1.12.0", features = ["behavior-version-latest"] }
aws-sdk-s3 = { version = "=1.152.0", features = ["behavior-version-latest"] }
aws-types = "=1.6.0"
clap = { version = "=4.6.7", features = ["derive"] }
dialoguer = { version = "=0.11.0", features = ["fuzzy-select"] }
envconfig = "=0.10.0"
tokio = { version = "=1.54.1", features = ["macros", "rt-multi-thread"] }
