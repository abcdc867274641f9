[package]
name = "club_ledger"
version = "0.1.0"
edition = "2021"
publish = false

[dependencies]
bigdecimal = { version = "=0.4.11", features = ["serde"] }
chrono = { version = "=0.4.45", features = ["serde"] }
iso_currency = { version = "=0.7.1", features = ["with-serde"] }
serde = { version = "=1.0.229", features = ["derive"] }
serde_json = "=1.0.154"
rmp-serde = "=1.3.1"
rust_xlsxwriter = { version = "=0.101.0", features = ["chrono"] }
uuid = { version = "=1.29.0", features = ["v4", "serde"] }
dioxus = { version = "=0.7.10", features = ["router"] }
rfd = { version = "=0.17.2", default-features = false, features = ["xdg-portal"] }
escpos = "=0.20.1"
