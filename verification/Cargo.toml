[package]
name = "users_gql"
version = "0.1.0"
edition = "2021"
publish = false

[dependencies]
async-graphql = "7"
warp = "0.3"
tokio = { version = "1", features = ["macros", "rt-multi-thread", "signal"] }
sqlx = { version = "0.8", default-features = false, features = ["runtime-tokio", "postgres"] }
serde = { version = "1", features = ["derive"] }
serde_json = "1"
