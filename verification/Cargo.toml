[package]
name = "synth_table"
version = "0.1.0"
edition = "2021"
publish = false

[dependencies]
aws-config = { version = "*", default-features = false }
aws-sdk-cloudwatchlogs = "*"
aws-sdk-iam = "*"
aws-sdk-sts = "*"
aws-types = "*"
base64 = "*"
chrono = "*"
colored = "*"
console = "*"
dialoguer = "*"
indicatif = "*"
tokio = { version = "*", default-features = false, features = ["macros", "rt-multi-thread", "time"] }
