[package]
name = "barust"
version = "0.1.0"
edition = "2021"
publish = false

[dependencies]
async-channel = "=2.5.0"
async-trait = "=0.1.92"
cairo-rs = "=0.22.9"
chrono = "=0.4.45"
crossbeam-channel = "=0.5.17"
derive-getters = "*"
derive_more = { version = "=2.1.1", features = ["full"] }
futures = "=0.3.34"
imap = "2"
inotify = "=0.11.5"
ipgeolocate = "*"
iwlib = "*"
libnotify = "*"
log = "=0.4.35"
native-tls = "*"
pango = "=0.22.9"
pangocairo = "=0.22.9"
psutil = "=3.3.0"
public-ip = "*"
pulsectl-rs = "*"
reqwest = { version = "=0.12.28", default-features = false, features = ["json", "rustls-tls"] }
serde = { version = "=1.0.229", features = ["derive"] }
serde_json = "=1.0.154"
signal-hook = "=0.4.6"
thiserror = "=2.0.21"
tokio = { version = "=1.54.1", features = ["full"] }
xcb = "=1.7.1"
yup-oauth2 = "*"
