[package]
name = "shorturl"
version = "0.1.0"
edition = "2021"
publish = false

[dependencies]
rand = "*"
actix-web = "*"
async-trait = "*"
clap = { version = "*", features = ["derive", "env"] }
dotenv = "*"
log = "*"
log4rs = "*"
serde = { version = "*", features = ["derive"] }
sqlx = { version = "*", features = ["sqlite", "runtime-tokio"] }
thiserror = "*"
