[package]
name = "rpi_client"
version = "0.1.0"
edition = "2021"
publish = false

[dependencies]
actix-web = "*"
env_logger = "*"
handlebars = "*"
log = "*"
serde = { version = "*", features = ["derive"] }
serde_json = "*"
serial2 = "*"
sysinfo = "*"
uuid = { version = "*", features = ["v4"] }
