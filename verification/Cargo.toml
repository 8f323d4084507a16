[package]
name = "pg_migration_lint"
version = "0.1.0"
edition = "2021"
publish = false

[dependencies]
pg_query = "=6.2.1"
serde = { version = "=1.0.229", features = ["derive"] }
strum = "=0.26.3"
strum_macros = "=0.26.4"
