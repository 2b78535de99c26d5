[package]
name = "vpnmanager"
version = "0.1.0"
edition = "2021"
publish = false

[dependencies]
pbkdf2 = { version = "=0.12.2", features = ["simple", "std"] }
openssl = "=0.10.82"
uuid = { version = "=1.29.1", features = ["v4"] }
serde = { version = "=1.0.229", features = ["derive"] }
serde_json = "=1.0.154"
toml = "=0.8.23"
lazy_static = "=1.5.1"
rocket = { version = "=0.5.2", features = ["secrets"] }
rocket_dyn_templates = { version = "=0.2.0", features = ["tera"] }
rocket_sync_db_pools = { version = "=0.1.0", features = ["diesel_sqlite_pool"] }
diesel = { version = "=2.3.14", features = ["sqlite"] }
