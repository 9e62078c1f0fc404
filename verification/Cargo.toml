[package]
name = "pubkymobile"
version = "0.1.0"
edition = "2021"
publish = false

[dependencies]
base64 = "=0.21.7"
bip39 = { version = "=2.2.2", features = ["rand"] }
hex = "=0.4.3"
ntimestamp = "=1.0.0"
once_cell = "=1.21.4"
pkarr = "=8.1.0"
pubky = "=0.15.0"
pubky-common = "=0.15.0"
serde_json = "=1.0.151"
tokio = { version = "=1.53.2", features = ["rt-multi-thread", "time", "macros"] }
url = "=2.5.8"
