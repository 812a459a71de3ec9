[package]
name = "eip712"
version = "0.1.0"
edition = "2021"
publish = false

[dependencies]
hex = "=0.4.3"
sha3 = "=0.10.9"
dotenvy = "=0.15.7"
tokio = { version = "=1.53.2", features = ["macros", "rt-multi-thread"] }
turnkey_client = "*"
turnkey_api_key_stamper = "*"
