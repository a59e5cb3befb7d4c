[package]
name = "email_processor"
version = "0.1.0"
edition = "2021"
publish = false

[dependencies]
mailparse = "*"
aws-config = "*"
aws-sdk-s3 = "*"
aws-sdk-sesv2 = "*"
lambda_runtime = "*"
tokio = { version = "*", features = ["macros", "rt-multi-thread"] }
serde = { version = "*", features = ["derive"] }
serde_json = "*"
tracing = "*"
tracing-subscriber = { version = "*", features = ["env-filter", "fmt", "json"] }
