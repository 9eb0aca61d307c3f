[package]
name = "lnaddrd"
version = "0.1.0"
edition = "2021"
publish = false

[dependencies]
lnurl-rs = "*"
rand = "=0.8.8"
bech32 = "*"
serde = { version = "*", features = ["derive"] }
serde_json = "*"
anyhow = "*"
async-trait = "*"
axum = "*"
tokio = { version = "*", features = ["full"] }
reqwest = "*"
clap = { version = "*", features = ["derive", "env"] }
maud = "*"
qrcode = "*"
tower-http = { version = "*", features = ["fs"] }
tracing = "*"
tracing-subscriber = "*"
diesel = { version = "*", features = ["postgres", "r2d2"] }
diesel_migrations = "*"
