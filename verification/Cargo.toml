[package]
name = "game_stockx_api"
version = "0.1.0"
edition = "2021"
publish = false

[dependencies]
actix-cors = "*"
actix-web = "*"
argon2 = "*"
bb8 = "*"
bb8-redis = "*"
chrono = "=0.4.45"
diesel = { version = "*", features = ["postgres", "r2d2"] }
futures-util = "*"
jsonwebtoken = { version = "=11.1.0", features = ["rust_crypto"] }
prometheus = "*"
serde = { version = "*", features = ["derive"] }
serde_json = "=1.0.151"
uuid = { version = "=1.27.0", features = ["v4"] }
