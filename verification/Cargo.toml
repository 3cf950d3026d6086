[package]
name = "rr_bench"
version = "0.1.0"
edition = "2021"
publish = false

[dependencies]
rand = "=0.8.8"
fake = "=2.10.0"
humantime = "=2.4.0"
anyhow = "=1.0.104"
clap = "=4.6.7"
indicatif = "=0.18.6"
csv = "=1.4.0"
serde = { version = "=1.0.229", features = ["derive"] }
uuid = { version = "=1.27.0", features = ["v4"] }
rusqlite = { version = "=0.40.2", features = ["bundled", "functions"] }
postgres = "=0.19.14"
openssl = "=0.10.81"
postgres-openssl = "=0.5.3"
r2d2_postgres = "=0.18.2"
pg_bigdecimal = "=0.1.5"
