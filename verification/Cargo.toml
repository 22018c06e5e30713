[package]
name = "buttplug_lite"
version = "0.1.0"
edition = "2021"
publish = false

[dependencies]
app_dirs = "1.2"
buttplug = { version = "=5.0.1", default-features = false, features = ["client", "server", "serialize-json", "tokio-runtime", "btleplug-manager", "serial-manager", "lovense-dongle-manager", "lovense-connect-service-manager", "xinput-manager"] }
clap = { version = "2", default-features = false }
futures = "0.3"
lazy_static = "1.4"
serde = { version = "1", features = ["derive"] }
tokio = { version = "1", features = ["macros", "rt-multi-thread", "sync", "time"] }
toml = "0.5"
tracing = "0.1"
tracing-subscriber = { version = "0.3", default-features = false, features = ["fmt"] }
warp = { version = "0.3", default-features = false, features = ["websocket"] }
