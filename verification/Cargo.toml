[package]
name = "ledger_store"
version = "0.1.0"
edition = "2021"
publish = false

[dependencies]
uuid = { version = "1", features = ["v4"] }
chrono = "0.4"
chronoutil = "0.2"
rusty-money = { version = "0.4", features = ["iso"] }
tokio = { version = "1", features = ["sync", "rt", "macros"] }
async-trait = "0.1"
tokio-postgres = { version = "0.7", features = ["with-uuid-1", "with-chrono-0_4"] }
mobc = "0.8"
mobc-postgres = "0.8"
postgres-types = { version = "0.2", features = ["derive"] }
