[package]
name = "skiddo_bot"
version = "0.1.0"
edition = "2021"
publish = false

[dependencies]
vfs = "=0.13.0"
serde = { version = "=1.0.229", features = ["derive"] }
bincode = "=1.3.3"
ipc-channel = "=0.18.3"
zbus = "=3.15.2"
tokio = { version = "=1.54.1", features = ["macros", "rt-multi-thread"] }
scorched = "=0.7.0"
poise = "0.6"
