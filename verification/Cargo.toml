[package]
name = "wifi_commissioning"
version = "0.1.0"
edition = "2021"
publish = false

[dependencies]
sha3 = "=0.10.9"
bluer = { version = "=0.17.4", features = ["bluetoothd"] }
dbus = { version = "=0.9.12", features = ["vendored"] }
tokio = { version = "=1.54.1", features = ["macros", "rt", "sync", "time"] }
wpactrl = "=0.5.1"
wifiscanner = "=0.5.1"
clap = { version = "=4.6.7", features = ["derive"] }
env_logger = "=0.11.11"
log = "=0.4.34"
uuid = "=1.29.0"
futures = "=0.3.34"

[dev-dependencies]
regex = "=1.13.1"
