[package]
name = "ldap_handler"
version = "0.1.0"
edition = "2021"
publish = false

[dependencies]
anyhow = "=1.0.104"
chrono = { version = "=0.4.45", features = ["serde"] }
ldap3_proto = "=0.2.3"
sea-orm = { version = "=0.10.7", default-features = false, features = ["macros", "with-chrono"] }
serde = { version = "=1.0.229", features = ["derive"] }
