[package]
name = "dontspeakd"
version = "0.1.0"
edition = "2021"
publish = false

[dependencies]
getrandom = "=0.3.4"
log = "=0.4.35"
notify = "=8.2.1"
serde = "=1.0.229"
serde_json = "=1.0.154"
tungstenite = "=0.26.2"
