[package]
name = "advert"
version = "0.1.0"
edition = "2021"
publish = false

[dependencies]
rand = "=0.8.8"
md5 = "=0.7.0"
chrono = { version = "=0.4.45", features = ["serde"] }
serde = { version = "=1.0.229", features = ["derive"] }
serde_json = "=1.0.154"
serde_repr = "=0.1.21"
serde_yaml = "=0.8.26"
actix-web = "=3.3.3"
sqlx = { version = "=0.5.13", default-features = false, features = ["runtime-async-std-rustls", "mysql", "chrono", "decimal", "json"] }
reqwest = { version = "=0.11.27", default-features = false, features = ["blocking", "json"] }
async-std = "=1.13.2"
job_scheduler = "=1.2.1"
lazy_static = "=1.5.1"
log = "=0.4.35"
env_logger = "=0.8.4"
dotenv = "=0.15.0"
itertools = "=0.10.5"
derive_more = "=0.99.20"
