[package]
name = "ledgerbook"
version = "0.1.0"
edition = "2021"
publish = false

[dependencies]
calamine = "0.23"
csv = "1"
egui = { version = "0.28", default-features = false }
rfd = "0.14"
serde = { version = "1", features = ["derive"] }
serde_json = "1"
xlsxwriter = "0.6"
