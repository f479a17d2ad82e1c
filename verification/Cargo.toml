[package]
name = "superinstance_agent_trait"
version = "0.1.0"
edition = "2021"
publish = false

[dependencies]
superinstance-protocol = "=0.1.0"
serde = { version = "=1.0.229", features = ["derive"] }
uuid = "=1.29.0"
