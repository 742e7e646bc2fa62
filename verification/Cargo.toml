[package]
name = "sys_scripts"
version = "0.1.0"
edition = "2021"
publish = false

[dependencies]
serde = { version = "1", features = ["derive"] }
serde_json = "1"
tokio = { version = "1", features = ["rt-multi-thread", "macros", "time"] }
reqwest = { version = "0.12", default-features = false, features = ["json", "rustls-tls"] }
zbus = "5"
futures-util = "0.3"
colored = "2"
inquire = "0.7"
gtk4 = "0.9"
glib = "0.20"
async-channel = "2"
