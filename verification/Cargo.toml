[package]
name = "cari_aktarim"
version = "0.1.0"
edition = "2021"
publish = false

[dependencies]
aes-gcm = "=0.10.3"
getrandom = "=0.2.17"
serde = { version = "1", features = ["derive"] }
serde_json = "1"
tiberius = { version = "=0.12.3", features = ["sql-browser-tokio"] }
tokio = { version = "1", features = ["net", "rt-multi-thread", "macros"] }
tokio-util = { version = "0.7", features = ["compat"] }
