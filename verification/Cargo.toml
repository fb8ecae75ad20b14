[package]
name = "zound"
version = "0.4.3"
edition = "2021"
publish = false

[dependencies]
cpal = "=0.15.3"
ringbuf = "=0.4.8"
rubato = "=0.16.2"
parking_lot = "=0.12.5"
serde = { version = "=1.0.229", features = ["derive"] }
serde_json = "=1.0.154"
thiserror = "=1.0.69"
tracing = "=0.1.44"
tracing-subscriber = { version = "=0.3.23", features = ["env-filter"] }
fluent-bundle = "=0.15.3"
intl-memoizer = "=0.5.3"
unic-langid = { version = "=0.9.6", features = ["macros"] }
libpulse-binding = "=2.30.1"
libpulse-simple-binding = "=2.29.0"
core-foundation-sys = "=0.8.7"
coreaudio-sys = "=0.2.18"
screencapturekit = "=11.1.2"
