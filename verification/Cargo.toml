[package]
name = "custom_utils"
version = "0.1.0"
edition = "2021"
publish = false

[dependencies]
time = { version = "=0.3.9", features = ["local-offset", "formatting", "macros"] }
anyhow = "=1.0.104"
log = "=0.4.34"
flexi_logger = { version = "=0.22.6", features = ["specfile"] }
tokio = { version = "=1.54.1", features = ["rt", "rt-multi-thread", "time", "macros", "sync"] }
libsystemd = "=0.5.0"
rustls = "=0.20.9"
rustls-native-certs = "=0.6.3"
rustls-pemfile = "=1.0.4"
picky = { version = "=6.3.0", features = ["chrono_conversion"] }
rsa = "=0.6.1"
rand = "=0.8.8"
chrono = "=0.4.45"
