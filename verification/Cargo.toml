[package]
name = "trustcore"
version = "0.1.0"
edition = "2021"
publish = false

[dependencies]
rusty_paseto = { version = "=0.10.1", default-features = false, features = ["core", "v4_public"] }
ed25519-dalek = { version = "=2.2.0", features = ["rand_core"] }
rand = "=0.8.8"
uuid = { version = "=1.27.0", features = ["v4"] }
chrono = "=0.4.45"
serde = { version = "=1.0.229", features = ["derive"] }
serde_json = "=1.0.151"
aws-config = { version = "=1.12.0", default-features = false, features = ["behavior-version-latest"] }
aws-sdk-ssm = { version = "=1.128.0", default-features = false }
aws-sdk-dynamodb = { version = "=1.130.0", default-features = false }
tokio = { version = "=1.53.2", features = ["macros", "rt-multi-thread"] }
