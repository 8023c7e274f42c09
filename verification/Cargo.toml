[package]
name = "unitn_fair_admin"
version = "0.1.0"
edition = "2021"
publish = false

[dependencies]
chrono = { version = "=0.4.45", features = ["serde"] }
rand = "=0.9.5"
password-auth = "=1.0.0"
confirm-email = "=0.1.3"
serde = { version = "=1.0.229", features = ["derive"] }
actix-web = { version = "=4.18.1", default-features = false, features = ["macros"] }
