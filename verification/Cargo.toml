[package]
name = "socless"
version = "0.1.0"
edition = "2021"
publish = false

[dependencies]
md5 = "*"
uuid = { version = "*", features = ["v4"] }
chrono = "*"
serde = { version = "*", features = ["derive"] }
serde_json = "*"
serde_dynamo = { version = "*", features = ["aws-sdk-dynamodb+1"] }
tokio = { version = "*", features = ["sync", "rt", "macros"] }
aws-config = "*"
aws-sdk-dynamodb = "*"
aws-sdk-s3 = "*"
aws-sdk-sfn = "*"
