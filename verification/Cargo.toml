[package]
name = "keycloak_oauth"
version = "0.1.0"
edition = "2021"
publish = false

[dependencies]
oauth2 = "4"
jsonwebtoken = "9"
serde_json = "1"
chrono = "0.4"
dotenv = "0.15"
tokio = { version = "1", features = ["rt-multi-thread", "macros", "time", "sync"] }
reqwest = { version = "0.12", default-features = false, features = ["json"] }
