[package]
name = "surreal_agents"
version = "0.1.0"
edition = "2021"
publish = false

[dependencies]
dotenv = "=0.15.0"
rig-core = "=0.31.0"
serde = { version = "=1.0.229", features = ["derive"] }
serde_json = "=1.0.154"
surrealdb = { version = "=3.3.4", default-features = false, features = ["protocol-ws", "rustls"] }
tokio = { version = "=1.54.1", features = ["macros", "rt-multi-thread"] }
